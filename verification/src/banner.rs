//! The banner that the server shows when it starts.
use vstd::prelude::*;

use crate::config::{Config, UpstreamMode};
use crate::text::{
    byte_len, chars_of, concat, concat3, decimal, decimal_string, join, joined, str_eq, texts,
};

verus! {

/// The colours of the frame, of values, and of remarks, and the end of a colour.
pub const FRAME: &'static str = "\x1b[38;2;192;98;58m";

pub const GREEN: &'static str = "\x1b[38;2;107;124;78m";

pub const DIM: &'static str = "\x1b[38;2;163;152;136m";

pub const RESET: &'static str = "\x1b[0m";

pub const BOLD: &'static str = "\x1b[1;38;2;192;98;58m";

pub const ITALIC: &'static str = "\x1b[3;38;2;163;152;136m";

pub const YELLOW: &'static str = "\x1b[38;2;204;176;59m";

/// A character several times.
pub open spec fn repeated(c: char, n: nat) -> Seq<char> {
    Seq::new(n, |i: int| c)
}

fn repeat(c: char, n: usize) -> (s: String)
    ensures
        s@ == repeated(c, n as nat),
{
    let mut s = String::new();
    let mut i: usize = 0;
    while i < n
        invariant
            i <= n,
            s@ == repeated(c, i as nat),
        decreases n - i,
    {
        s.push(c);
        assert(s@ =~= repeated(c, (i + 1) as nat));
        i += 1;
    }
    assert(s@ =~= repeated(c, n as nat));
    s
}

/// A text with spaces after it, up to a width.
pub open spec fn filled_to(s: Seq<char>, width: nat) -> Seq<char> {
    if s.len() >= width {
        s
    } else {
        s + repeated(' ', (width - s.len()) as nat)
    }
}

fn fill_to(s: &str, width: usize) -> (r: String)
    ensures
        r@ == filled_to(s@, width as nat),
{
    let n: usize = chars_of(s).len();
    if n >= width {
        s.to_owned()
    } else {
        concat(s, repeat(' ', width - n).as_str())
    }
}

/// A row: a label, a colour and a value.
pub struct Row {
    pub label: &'static str,
    pub color: &'static str,
    pub value: String,
}

/// A row: a label, a colour and a value.
pub struct RowView {
    pub label: Seq<char>,
    pub color: Seq<char>,
    pub value: Seq<char>,
}

impl View for Row {
    type V = RowView;

    open spec fn view(&self) -> RowView {
        RowView { label: self.label@, color: self.color@, value: self.value@ }
    }
}

/// What each row is.
pub open spec fn row_views(v: Seq<Row>) -> Seq<RowView> {
    v.map_values(|r: Row| r@)
}

/// The text of a row in a frame of a width.
pub open spec fn row_text(r: RowView, w: nat) -> Seq<char> {
    FRAME@ + "  \u{2551}"@ + RESET@ + "  "@ + r.color + filled_to(r.label, 9) + RESET@ + " "@
        + filled_to(r.value, (w - 12) as nat) + FRAME@ + "\u{2551}"@ + RESET@ + "\n"@
}

/// The text of rows in a frame of a width.
pub open spec fn rows_text(v: Seq<RowView>, w: nat) -> Seq<char>
    decreases v.len(),
{
    if v.len() == 0 {
        Seq::empty()
    } else {
        rows_text(v.drop_last(), w) + row_text(v.last(), w)
    }
}

fn put_row(s: &mut String, r: &Row, w: usize)
    requires
        w >= 12,
    ensures
        final(s)@ == old(s)@ + row_text(r@, w as nat),
{
    s.append(FRAME);
    s.append("  \u{2551}");
    s.append(RESET);
    s.append("  ");
    s.append(r.color);
    s.append(fill_to(r.label, 9).as_str());
    s.append(RESET);
    s.append(" ");
    s.append(fill_to(r.value.as_str(), w - 12).as_str());
    s.append(FRAME);
    s.append("\u{2551}");
    s.append(RESET);
    s.append("\n");
    assert(s@ =~= old(s)@ + row_text(r@, w as nat));
}

fn put_rows(s: &mut String, v: &Vec<Row>, w: usize)
    requires
        w >= 12,
    ensures
        final(s)@ == old(s)@ + rows_text(row_views(v@), w as nat),
{
    let ghost all = row_views(v@);
    let ghost start = s@;
    let mut i: usize = 0;
    assert(all.subrange(0, 0) =~= Seq::<RowView>::empty());
    assert(start + rows_text(all.subrange(0, 0), w as nat) =~= start);
    while i < v.len()
        invariant
            i <= v.len(),
            w >= 12,
            all == row_views(v@),
            s@ == start + rows_text(all.subrange(0, i as int), w as nat),
        decreases v.len() - i,
    {
        proof {
            let more = all.subrange(0, i + 1);
            assert(more.drop_last() =~= all.subrange(0, i as int));
            assert(more.last() == v@[i as int]@);
        }
        put_row(s, &v[i], w);
        assert(s@ =~= start + rows_text(all.subrange(0, i + 1), w as nat));
        i += 1;
    }
    assert(all.subrange(0, all.len() as int) =~= all);
}

/// What a banner tells beside the configuration.
pub struct BannerInfo<'a> {
    pub version: &'a str,
    pub api_url: &'a str,
    pub upstream_label: &'a str,
    pub upstream_mode: UpstreamMode,
    pub zone_count: usize,
    pub doh_enabled: bool,
    pub rule_count: usize,
    pub config_found: bool,
    pub config_path: &'a str,
    pub data_dir: &'a str,
    pub services_path: &'a str,
}

/// What is shown of the proxy.
pub open spec fn proxy_value(c: &Config) -> Option<Seq<char>> {
    if !c.proxy.enabled {
        None
    } else if c.proxy.tls_port > 0 {
        Some(
            "http://:"@ + decimal(c.proxy.port as nat) + " https://:"@ + decimal(
                c.proxy.tls_port as nat,
            ),
        )
    } else {
        Some("http://*."@ + c.proxy.tld@ + " on :"@ + decimal(c.proxy.port as nat))
    }
}

fn show_proxy(c: &Config) -> (r: Option<String>)
    ensures
        proxy_value(c) == (match r {
            Some(s) => Some(s@),
            None => None,
        }),
{
    if !c.proxy.enabled {
        return None;
    }
    let port = decimal_string(c.proxy.port as u64);
    if c.proxy.tls_port > 0 {
        let head = concat3("http://:", port.as_str(), " https://:");
        Some(concat(head.as_str(), decimal_string(c.proxy.tls_port as u64).as_str()))
    } else {
        let head = concat3("http://*.", c.proxy.tld.as_str(), " on :");
        Some(concat(head.as_str(), port.as_str()))
    }
}

/// What is shown of the configuration file.
pub open spec fn config_value(i: &BannerInfo) -> Seq<char> {
    if i.config_found {
        i.config_path@
    } else {
        i.config_path@ + " (defaults)"@
    }
}

fn show_config(i: &BannerInfo) -> (s: String)
    ensures
        s@ == config_value(i),
{
    if i.config_found {
        i.config_path.to_owned()
    } else {
        concat(i.config_path, " (defaults)")
    }
}

/// The larger of two numbers.
pub open spec fn larger(a: nat, b: nat) -> nat {
    if a >= b {
        a
    } else {
        b
    }
}

/// The widest of the values that may be long.
pub open spec fn widest(c: &Config, i: &BannerInfo) -> nat {
    let a = larger(byte_len(joined(texts(c.server.bind_addr@), ", "@)), byte_len(i.api_url@));
    let b = larger(a, byte_len(i.upstream_label@));
    let d = larger(b, byte_len(config_value(i)));
    let e = larger(d, byte_len(i.data_dir@));
    let f = larger(e, byte_len(i.services_path@));
    match proxy_value(c) {
        Some(p) => larger(f, byte_len(p)),
        None => f,
    }
}

/// The title without its colours.
pub open spec fn plain_title(version: Seq<char>) -> Seq<char> {
    "NUMA  DNS that governs itself  v"@ + version
}

/// The width inside the frame: enough for labels and values, and for the title.
pub open spec fn frame_width(c: &Config, i: &BannerInfo) -> nat {
    larger(larger(widest(c, i) + 12, 42), 1 + plain_title(i.version@).len())
}

fn wider(n: usize, s: &str) -> (m: usize)
    ensures
        m == larger(n as nat, byte_len(s@)),
{
    let k: usize = s.as_bytes().len();
    if n >= k {
        n
    } else {
        k
    }
}

/// A row, where it is to be shown.
pub open spec fn with_row(
    v: Seq<RowView>,
    on: bool,
    label: Seq<char>,
    color: Seq<char>,
    value: Seq<char>,
) -> Seq<RowView> {
    if on {
        v.push(RowView { label, color, value })
    } else {
        v
    }
}

fn add_row(v: &mut Vec<Row>, on: bool, label: &'static str, color: &'static str, value: String)
    ensures
        row_views(final(v)@) == with_row(row_views(old(v)@), on, label@, color@, value@),
{
    if on {
        let ghost row = RowView { label: label@, color: color@, value: value@ };
        v.push(Row { label, color, value });
        assert(row_views(v@) =~= row_views(old(v)@).push(row));
    }
}

/// The rows about what the server does.
pub open spec fn upper_rows(c: &Config, i: &BannerInfo) -> Seq<RowView> {
    let g = GREEN@;
    let v = with_row(
        Seq::empty(),
        true,
        "DNS"@,
        g,
        joined(texts(c.server.bind_addr@), ", "@),
    );
    let v = with_row(v, true, "API"@, g, i.api_url@);
    let v = with_row(v, true, "Dashboard"@, g, i.api_url@);
    let v = with_row(
        v,
        true,
        "Upstream"@,
        g,
        if i.upstream_mode is Recursive {
            "recursive (root hints)"@
        } else {
            i.upstream_label@
        },
    );
    let v = with_row(v, true, "Zones"@, g, decimal(i.zone_count as nat) + " records"@);
    let v = with_row(
        v,
        true,
        "Cache"@,
        g,
        "max "@ + decimal(c.cache.max_entries as nat) + " entries"@,
    );
    let v = with_row(
        v,
        c.cache.warm@.len() > 0,
        "Warm"@,
        g,
        decimal(c.cache.warm@.len()) + " domains"@,
    );
    let v = with_row(
        v,
        true,
        "Blocking"@,
        g,
        if c.blocking.enabled {
            decimal(c.blocking.lists@.len()) + " lists"@
        } else {
            "disabled"@
        },
    );
    let v = match proxy_value(c) {
        Some(p) => with_row(
            with_row(v, true, "Proxy"@, g, p),
            c.proxy.bind_addr@ == "127.0.0.1"@,
            ""@,
            YELLOW@,
            "\u{26a0} proxy on 127.0.0.1 \u{2014} ."@ + c.proxy.tld@ + " not LAN reachable"@,
        ),
        None => v,
    };
    let v = with_row(v, c.dot.enabled, "DoT"@, g, "tls://:"@ + decimal(c.dot.port as nat));
    let v = with_row(
        v,
        i.doh_enabled,
        "DoH"@,
        g,
        "https://:"@ + decimal(c.proxy.tls_port as nat) + "/dns-query"@,
    );
    let v = with_row(v, c.lan.enabled, "LAN"@, g, "mDNS (_numa._tcp.local)"@);
    with_row(
        v,
        i.rule_count > 0,
        "Routing"@,
        g,
        decimal(i.rule_count as nat) + " conditional rules"@,
    )
}

/// The rows about its files.
pub open spec fn lower_rows(i: &BannerInfo) -> Seq<RowView> {
    let v = with_row(Seq::empty(), true, "Config"@, DIM@, config_value(i));
    let v = with_row(v, true, "Data"@, DIM@, i.data_dir@);
    with_row(v, true, "Services"@, DIM@, i.services_path@)
}

fn counted(n: usize, word: &str) -> (s: String)
    ensures
        s@ == decimal(n as nat) + word@,
{
    concat(decimal_string(n as u64).as_str(), word)
}

fn make_upper(c: &Config, i: &BannerInfo) -> (v: Vec<Row>)
    ensures
        row_views(v@) == upper_rows(c, i),
{
    let mut v: Vec<Row> = Vec::new();
    assert(row_views(v@) =~= Seq::<RowView>::empty());
    add_row(&mut v, true, "DNS", GREEN, join(&c.server.bind_addr, ", "));
    add_row(&mut v, true, "API", GREEN, i.api_url.to_owned());
    add_row(&mut v, true, "Dashboard", GREEN, i.api_url.to_owned());
    let upstream = match i.upstream_mode {
        UpstreamMode::Recursive => "recursive (root hints)".to_owned(),
        _ => i.upstream_label.to_owned(),
    };
    add_row(&mut v, true, "Upstream", GREEN, upstream);
    add_row(&mut v, true, "Zones", GREEN, counted(i.zone_count, " records"));
    let entries = concat3(
        "max ",
        decimal_string(c.cache.max_entries as u64).as_str(),
        " entries",
    );
    add_row(&mut v, true, "Cache", GREEN, entries);
    let warm: usize = c.cache.warm.len();
    add_row(&mut v, warm > 0, "Warm", GREEN, counted(warm, " domains"));
    let blocking = if c.blocking.enabled {
        counted(c.blocking.lists.len(), " lists")
    } else {
        "disabled".to_owned()
    };
    add_row(&mut v, true, "Blocking", GREEN, blocking);
    if let Some(p) = show_proxy(c) {
        add_row(&mut v, true, "Proxy", GREEN, p);
        let hidden = str_eq(c.proxy.bind_addr.as_str(), "127.0.0.1");
        let warning = concat3(
            "\u{26a0} proxy on 127.0.0.1 \u{2014} .",
            c.proxy.tld.as_str(),
            " not LAN reachable",
        );
        add_row(&mut v, hidden, "", YELLOW, warning);
    }
    add_row(
        &mut v,
        c.dot.enabled,
        "DoT",
        GREEN,
        concat("tls://:", decimal_string(c.dot.port as u64).as_str()),
    );
    let doh = concat3(
        "https://:",
        decimal_string(c.proxy.tls_port as u64).as_str(),
        "/dns-query",
    );
    add_row(&mut v, i.doh_enabled, "DoH", GREEN, doh);
    add_row(&mut v, c.lan.enabled, "LAN", GREEN, "mDNS (_numa._tcp.local)".to_owned());
    add_row(
        &mut v,
        i.rule_count > 0,
        "Routing",
        GREEN,
        counted(i.rule_count, " conditional rules"),
    );
    v
}

fn make_lower(i: &BannerInfo) -> (v: Vec<Row>)
    ensures
        row_views(v@) == lower_rows(i),
{
    let mut v: Vec<Row> = Vec::new();
    assert(row_views(v@) =~= Seq::<RowView>::empty());
    add_row(&mut v, true, "Config", DIM, show_config(i));
    add_row(&mut v, true, "Data", DIM, i.data_dir.to_owned());
    add_row(&mut v, true, "Services", DIM, i.services_path.to_owned());
    v
}

/// A line of the frame, between two corners.
pub open spec fn rule_text(left: Seq<char>, c: char, right: Seq<char>, w: nat) -> Seq<char> {
    FRAME@ + left + repeated(c, w) + right + RESET@ + "\n"@
}

fn put_rule(s: &mut String, left: &str, c: char, right: &str, w: usize)
    ensures
        final(s)@ == old(s)@ + rule_text(left@, c, right@, w as nat),
{
    s.append(FRAME);
    s.append(left);
    s.append(repeat(c, w).as_str());
    s.append(right);
    s.append(RESET);
    s.append("\n");
    assert(s@ =~= old(s)@ + rule_text(left@, c, right@, w as nat));
}

/// The line of the title.
pub open spec fn title_text(version: Seq<char>, w: nat) -> Seq<char> {
    FRAME@ + "  \u{2551}"@ + RESET@ + " "@ + BOLD@ + "NUMA"@ + RESET@ + "  "@ + ITALIC@
        + "DNS that governs itself"@ + RESET@ + "  "@ + DIM@ + "v"@ + version + RESET@ + repeated(
        ' ',
        (w - 1 - plain_title(version).len()) as nat,
    ) + FRAME@ + "\u{2551}"@ + RESET@ + "\n"@
}

fn put_title(s: &mut String, version: &str, w: usize)
    requires
        w >= 1 + plain_title(version@).len(),
    ensures
        final(s)@ == old(s)@ + title_text(version@, w as nat),
{
    let plain = concat("NUMA  DNS that governs itself  v", version);
    let used: usize = chars_of(plain.as_str()).len();
    s.append(FRAME);
    s.append("  \u{2551}");
    s.append(RESET);
    s.append(" ");
    s.append(BOLD);
    s.append("NUMA");
    s.append(RESET);
    s.append("  ");
    s.append(ITALIC);
    s.append("DNS that governs itself");
    s.append(RESET);
    s.append("  ");
    s.append(DIM);
    s.append("v");
    s.append(version);
    s.append(RESET);
    s.append(repeat(' ', w - 1 - used).as_str());
    s.append(FRAME);
    s.append("\u{2551}");
    s.append(RESET);
    s.append("\n");
    assert(s@ =~= old(s)@ + title_text(version@, w as nat));
}

/// The banner.
pub open spec fn banner_text(c: &Config, i: &BannerInfo) -> Seq<char> {
    let w = frame_width(c, i);
    "\n"@ + rule_text("  \u{2554}"@, '\u{2550}', "\u{2557}"@, w) + title_text(i.version@, w)
        + rule_text("  \u{2560}"@, '\u{2550}', "\u{2563}"@, w) + rows_text(upper_rows(c, i), w)
        + rule_text("  \u{2560}"@, '\u{2500}', "\u{2563}"@, w) + rows_text(lower_rows(i), w)
        + rule_text("  \u{255a}"@, '\u{2550}', "\u{255d}"@, w) + "\n"@
}

fn width_of(c: &Config, i: &BannerInfo) -> (w: usize)
    requires
        frame_width(c, i) <= usize::MAX,
    ensures
        w == frame_width(c, i),
{
    let mut n: usize = wider(0, join(&c.server.bind_addr, ", ").as_str());
    n = wider(n, i.api_url);
    n = wider(n, i.upstream_label);
    n = wider(n, show_config(i).as_str());
    n = wider(n, i.data_dir);
    n = wider(n, i.services_path);
    if let Some(p) = show_proxy(c) {
        n = wider(n, p.as_str());
    }
    let plain = concat("NUMA  DNS that governs itself  v", i.version);
    let title: usize = chars_of(plain.as_str()).len();
    let mut w: usize = n + 12;
    if w < 42 {
        w = 42;
    }
    if w < 1 + title {
        w = 1 + title;
    }
    w
}

/// The banner.
pub fn print_banner(c: &Config, i: &BannerInfo) -> (s: String)
    requires
        frame_width(c, i) <= usize::MAX,
    ensures
        s@ == banner_text(c, i),
{
    let w: usize = width_of(c, i);
    let mut s = "\n".to_owned();
    put_rule(&mut s, "  \u{2554}", '\u{2550}', "\u{2557}", w);
    put_title(&mut s, i.version, w);
    put_rule(&mut s, "  \u{2560}", '\u{2550}', "\u{2563}", w);
    put_rows(&mut s, &make_upper(c, i), w);
    put_rule(&mut s, "  \u{2560}", '\u{2500}', "\u{2563}", w);
    put_rows(&mut s, &make_lower(i), w);
    put_rule(&mut s, "  \u{255a}", '\u{2550}', "\u{255d}", w);
    s.append("\n");
    s
}

} // verus!
