//! What a configuration is made from: the command-line options, the answers
//! of a menu, and the settings a session remembers.

use vstd::prelude::*;
use crate::cli::{Args, HttpMethod, RampingMode};
use crate::config::{AuthConfig, BenchmarkConfig, RampingConfig, ThresholdConfig};
use crate::decimal::Decimal;
use crate::text::{
    chars_occur_at, chars_start_with, chars_to_string, length_without_trailing, occurs_at,
    optional_text, push_chars, slice_chars, starts_with, str_chars, strings_view, texts_view, trim_chars,
    trimmed, without_trailing,
};
use crate::user_agent::{resolve_spec, resolve_user_agent};

verus! {

/// The settings that a session carries from one run to the next.
#[derive(Debug, Clone)]
pub struct SessionState {
    pub last_report_dir: Option<String>,
    pub method: HttpMethod,
    pub body: Option<String>,
    pub user_agent_idx: usize,
    pub custom_user_agent: Option<String>,
    pub ramping_mode: RampingMode,
    pub start_rate: u32,
    pub max_rate: u32,
    pub step: u32,
    pub duration_idx: usize,
    pub threads: u32,
    pub connections: u32,
    pub max_error_rate: Decimal,
    pub max_p99_ms: u32,
    pub warmup_idx: usize,
    pub cooldown_idx: usize,
    pub save_report: bool,
}

impl Default for SessionState {
    fn default() -> (r: Self)
        ensures
            r.last_report_dir is None,
            r.method == HttpMethod::Get,
            r.body is None,
            r.user_agent_idx == 0,
            r.custom_user_agent is None,
            r.ramping_mode == RampingMode::Linear,
            r.start_rate == 50,
            r.max_rate == 5000,
            r.step == 50,
            r.duration_idx == 0,
            r.threads == 4,
            r.connections == 100,
            r.max_error_rate == (Decimal { micros: 5_000_000 }),
            r.max_p99_ms == 5000,
            r.warmup_idx == 1,
            r.cooldown_idx == 0,
            r.save_report,
    {
        SessionState {
            last_report_dir: None,
            method: HttpMethod::Get,
            body: None,
            user_agent_idx: 0,
            custom_user_agent: None,
            ramping_mode: RampingMode::Linear,
            start_rate: 50,
            max_rate: 5000,
            step: 50,
            duration_idx: 0,
            threads: 4,
            connections: 100,
            max_error_rate: Decimal { micros: 5_000_000 },
            max_p99_ms: 5000,
            warmup_idx: 1,
            cooldown_idx: 0,
            save_report: true,
        }
    }
}

/// The place of a method in the menu.
pub fn method_index(method: HttpMethod) -> (r: usize)
    ensures
        r < 6,
        method_at(r) == method,
{
    match method {
        HttpMethod::Get => 0,
        HttpMethod::Post => 1,
        HttpMethod::Put => 2,
        HttpMethod::Patch => 3,
        HttpMethod::Delete => 4,
        HttpMethod::Head => 5,
    }
}

/// The method at a place of the menu; `Get` beyond it.
pub open spec fn method_at(index: usize) -> HttpMethod {
    if index == 1 {
        HttpMethod::Post
    } else if index == 2 {
        HttpMethod::Put
    } else if index == 3 {
        HttpMethod::Patch
    } else if index == 4 {
        HttpMethod::Delete
    } else if index == 5 {
        HttpMethod::Head
    } else {
        HttpMethod::Get
    }
}

/// Converts a place of the menu to a method.
pub fn index_to_method(index: usize) -> (r: HttpMethod)
    ensures
        r == method_at(index),
{
    if index == 1 {
        HttpMethod::Post
    } else if index == 2 {
        HttpMethod::Put
    } else if index == 3 {
        HttpMethod::Patch
    } else if index == 4 {
        HttpMethod::Delete
    } else if index == 5 {
        HttpMethod::Head
    } else {
        HttpMethod::Get
    }
}

/// Whether requests of this method carry a body.
pub fn method_takes_body(method: HttpMethod) -> (r: bool)
    ensures
        r == (method == HttpMethod::Post || method == HttpMethod::Put || method
            == HttpMethod::Patch),
{
    match method {
        HttpMethod::Post | HttpMethod::Put | HttpMethod::Patch => true,
        _ => false,
    }
}

/// The place of a ramping mode in the menu.
pub fn ramping_mode_index(mode: RampingMode) -> (r: usize)
    ensures
        r == (if mode == RampingMode::Linear { 0usize } else { 1usize }),
{
    match mode {
        RampingMode::Linear => 0,
        RampingMode::Exponential => 1,
    }
}

/// The ramping mode at a place of the menu; linear beyond it.
pub fn index_to_ramping_mode(index: usize) -> (r: RampingMode)
    ensures
        r == (if index == 1 { RampingMode::Exponential } else { RampingMode::Linear }),
{
    if index == 1 {
        RampingMode::Exponential
    } else {
        RampingMode::Linear
    }
}

/// The seconds per step at a place of the menu: 30, 60 or 120; 30 beyond it.
pub fn index_to_duration(index: usize) -> (r: u32)
    ensures
        r == (if index == 1 { 60u32 } else if index == 2 { 120u32 } else { 30u32 }),
{
    if index == 1 {
        60
    } else if index == 2 {
        120
    } else {
        30
    }
}

/// The seconds of warmup at a place of the menu: 0, 10 or 30; 10 beyond it.
pub fn index_to_warmup(index: usize) -> (r: u32)
    ensures
        r == (if index == 0 { 0u32 } else if index == 2 { 30u32 } else { 10u32 }),
{
    if index == 0 {
        0
    } else if index == 2 {
        30
    } else {
        10
    }
}

/// The seconds of cooldown at a place of the menu: 0, 3, 5 or 10; 5 beyond it.
pub fn index_to_cooldown(index: usize) -> (r: u32)
    ensures
        r == (if index == 0 { 0u32 } else if index == 1 { 3u32 } else if index == 3 { 10u32 } else { 5u32 }),
{
    if index == 0 {
        0
    } else if index == 1 {
        3
    } else if index == 3 {
        10
    } else {
        5
    }
}

/// A URL with its protocol: `https://` is put before one that names none.
pub open spec fn with_protocol(url: Seq<char>) -> Seq<char> {
    if starts_with(url, "http://"@) || starts_with(url, "https://"@) {
        url
    } else {
        "https://"@ + url
    }
}

fn ensure_protocol_chars(url: &Vec<char>) -> (r: Vec<char>)
    ensures
        r@ == with_protocol(url@),
{
    let mut out: Vec<char> = Vec::new();
    if !(chars_start_with(url, &str_chars("http://")) || chars_start_with(
        url,
        &str_chars("https://"),
    )) {
        out = str_chars("https://");
    }
    let ghost before = out@;
    push_chars(&mut out, url);
    assert(before.len() == 0 ==> out@ =~= url@);
    out
}

/// Makes sure that a URL names a protocol, `https://` by default.
pub fn ensure_protocol(url: &str) -> (r: String)
    ensures
        r@ == with_protocol(url@),
{
    chars_to_string(&ensure_protocol_chars(&str_chars(url)))
}

/// `s` without the occurrences of `pattern`, found from left to right.
pub open spec fn without(s: Seq<char>, pattern: Seq<char>) -> Seq<char>
    recommends
        pattern.len() > 0,
    decreases s.len(),
{
    if pattern.len() == 0 || s.len() < pattern.len() {
        s
    } else if occurs_at(s, pattern, 0) {
        without(s.skip(pattern.len() as int), pattern)
    } else {
        seq![s[0]] + without(s.drop_first(), pattern)
    }
}

fn remove_all(s: &Vec<char>, pattern: &Vec<char>) -> (r: Vec<char>)
    requires
        pattern.len() > 0,
    ensures
        r@ == without(s@, pattern@),
{
    let mut out: Vec<char> = Vec::new();
    let mut i: usize = 0;
    assert(s@.skip(0) =~= s@);
    assert(out@ + without(s@, pattern@) =~= without(s@, pattern@));
    while i < s.len()
        invariant
            i <= s.len(),
            pattern.len() > 0,
            without(s@, pattern@) == out@ + without(s@.skip(i as int), pattern@),
        decreases s.len() - i,
    {
        let ghost rest = s@.skip(i as int);
        if chars_occur_at(s, pattern, i) {
            assert(rest.subrange(0, pattern.len() as int) =~= s@.subrange(
                i as int,
                i + pattern.len(),
            ));
            assert(rest.skip(pattern.len() as int) =~= s@.skip(i + pattern.len()));
            i += pattern.len();
        } else {
            let ghost done = out@;
            let ghost tail = without(s@.skip(i + 1), pattern@);
            proof {
                assert(rest[0] == s@[i as int]);
                assert(rest.drop_first() =~= s@.skip(i + 1));
                if rest.len() >= pattern.len() {
                    assert(rest.subrange(0, pattern.len() as int) =~= s@.subrange(
                        i as int,
                        i + pattern.len(),
                    ));
                } else {
                    assert(without(rest.drop_first(), pattern@) == rest.drop_first());
                    assert(rest =~= seq![rest[0]] + rest.drop_first());
                }
                assert(without(rest, pattern@) == seq![rest[0]] + tail);
            }
            out.push(s[i]);
            assert(out@ + tail =~= done + (seq![s@[i as int]] + tail));
            i += 1;
        }
    }
    assert(s@.skip(s.len() as int) =~= Seq::<char>::empty());
    assert(out@ + Seq::<char>::empty() =~= out@);
    out
}

/// The characters that a file name should not hold.
pub open spec fn is_unsafe_in_name(c: char) -> bool {
    c == '/' || c == ':' || c == '?' || c == '&' || c == '=' || c == '#' || c == ' '
}

/// `s` with an underscore for every character that a file name should not hold.
pub open spec fn underscored(s: Seq<char>) -> Seq<char> {
    s.map_values(|c: char| if is_unsafe_in_name(c) { '_' } else { c })
}

/// At most the first `limit` characters of `s`.
pub open spec fn truncated(s: Seq<char>, limit: int) -> Seq<char> {
    if s.len() > limit {
        s.subrange(0, limit)
    } else {
        s
    }
}

/// The name of a file for the report on `url`: the URL without its
/// protocol, with underscores for the characters that a file name should
/// not hold, without underscores at its end, cut off after 100 characters.
pub open spec fn safe_name(url: Seq<char>) -> Seq<char> {
    let bare = underscored(without(without(url, "https://"@), "http://"@));
    truncated(without_trailing(bare, '_'), 100)
}

/// Turns a URL into a name that is safe for a file.
pub fn url_to_safe_name(url: &str) -> (r: String)
    ensures
        r@ == safe_name(url@),
{
    proof {
        reveal_strlit("https://");
        reveal_strlit("http://");
    }
    let no_https = remove_all(&str_chars(url), &str_chars("https://"));
    let bare = remove_all(&no_https, &str_chars("http://"));
    let mut name: Vec<char> = Vec::new();
    let mut i: usize = 0;
    while i < bare.len()
        invariant
            i <= bare.len(),
            name.len() == i,
            forall|k: int|
                0 <= k < i ==> name@[k] == (if is_unsafe_in_name(bare@[k]) {
                    '_'
                } else {
                    bare@[k]
                }),
        decreases bare.len() - i,
    {
        let c = bare[i];
        let unsafe_here = c == '/' || c == ':' || c == '?' || c == '&' || c == '=' || c == '#'
            || c == ' ';
        name.push(if unsafe_here { '_' } else { c });
        i += 1;
    }
    assert(name@ =~= underscored(bare@));
    let end = length_without_trailing(&name, '_');
    let keep: usize = if end > 100 { 100 } else { end };
    let out = slice_chars(&name, 0, keep);
    assert(out@ =~= safe_name(url@));
    chars_to_string(&out)
}

/// The name that a report gets where none is given: the safe name of a
/// single target, a fixed name for several.
pub open spec fn default_name(urls: Seq<Seq<char>>) -> Seq<char> {
    if urls.len() == 1 {
        safe_name(urls[0])
    } else {
        "ohabench_benchmark"@
    }
}

/// Picks the name of a report where none is given.
pub fn default_benchmark_name(urls: &Vec<String>) -> (r: String)
    ensures
        r@ == default_name(strings_view(urls@)),
{
    if urls.len() == 1 {
        assert(strings_view(urls@)[0] == urls@[0]@);
        url_to_safe_name(urls[0].as_str())
    } else {
        "ohabench_benchmark".to_owned()
    }
}

/// The pieces of `s` between the occurrences of `sep`. A text without
/// `sep` is one piece.
pub open spec fn split_on(s: Seq<char>, sep: char) -> Seq<Seq<char>>
    decreases s.len(),
{
    if s.len() == 0 {
        seq![Seq::empty()]
    } else {
        let before = split_on(s.drop_last(), sep);
        if s.last() == sep {
            before.push(Seq::empty())
        } else {
            before.drop_last().push(before.last().push(s.last()))
        }
    }
}

/// The pieces without the white space at their ends, those left out that
/// hold nothing else.
pub open spec fn trimmed_pieces(pieces: Seq<Seq<char>>) -> Seq<Seq<char>>
    decreases pieces.len(),
{
    if pieces.len() == 0 {
        Seq::empty()
    } else if trimmed(pieces.last()).len() > 0 {
        trimmed_pieces(pieces.drop_last()).push(trimmed(pieces.last()))
    } else {
        trimmed_pieces(pieces.drop_last())
    }
}

/// The entries of a list written with commas.
pub open spec fn list_entries(input: Seq<char>) -> Seq<Seq<char>> {
    trimmed_pieces(split_on(input, ','))
}

fn split_chars(s: &Vec<char>, sep: char) -> (r: Vec<Vec<char>>)
    ensures
        texts_view(r@) == split_on(s@, sep),
{
    let mut pieces: Vec<Vec<char>> = Vec::new();
    let mut current: Vec<char> = Vec::new();
    let mut i: usize = 0;
    assert(s@.subrange(0, 0) =~= Seq::<char>::empty());
    assert(texts_view(pieces@).push(current@) =~= seq![Seq::<char>::empty()]);
    while i < s.len()
        invariant
            i <= s.len(),
            split_on(s@.subrange(0, i as int), sep) == texts_view(pieces@).push(current@),
        decreases s.len() - i,
    {
        let ghost done = texts_view(pieces@);
        let ghost piece = current@;
        assert(s@.subrange(0, i + 1).drop_last() == s@.subrange(0, i as int));
        assert(s@.subrange(0, i + 1).last() == s@[i as int]);
        assert(done.push(piece).drop_last() =~= done);
        if s[i] == sep {
            pieces.push(current);
            current = Vec::new();
            assert(texts_view(pieces@) =~= done.push(piece));
        } else {
            current.push(s[i]);
        }
        i += 1;
    }
    assert(s@.subrange(0, s.len() as int) == s@);
    let ghost done = texts_view(pieces@);
    pieces.push(current);
    assert(texts_view(pieces@) =~= done.push(current@));
    pieces
}

fn list_entry_chars(input: &str) -> (r: Vec<Vec<char>>)
    ensures
        texts_view(r@) == list_entries(input@),
{
    let pieces = split_chars(&str_chars(input), ',');
    let ghost all = texts_view(pieces@);
    let mut entries: Vec<Vec<char>> = Vec::new();
    let mut i: usize = 0;
    assert(texts_view(entries@) =~= Seq::<Seq<char>>::empty());
    while i < pieces.len()
        invariant
            i <= pieces.len(),
            all == texts_view(pieces@),
            texts_view(entries@) == trimmed_pieces(all.subrange(0, i as int)),
        decreases pieces.len() - i,
    {
        assert(all.subrange(0, i + 1).drop_last() == all.subrange(0, i as int));
        assert(all.subrange(0, i + 1).last() == pieces@[i as int]@);
        let entry = trim_chars(&pieces[i]);
        let ghost done = texts_view(entries@);
        if entry.len() > 0 {
            entries.push(entry);
            assert(texts_view(entries@) =~= done.push(entry@));
        }
        i += 1;
    }
    assert(all.subrange(0, pieces.len() as int) == all);
    entries
}

/// Reads a list of header lines written with commas between them.
pub fn parse_header_list(input: &str) -> (r: Vec<String>)
    ensures
        strings_view(r@) == list_entries(input@),
{
    let entries = list_entry_chars(input);
    let mut out: Vec<String> = Vec::new();
    let mut i: usize = 0;
    while i < entries.len()
        invariant
            i <= entries.len(),
            out.len() == i,
            forall|k: int| 0 <= k < i ==> (#[trigger] out@[k])@ == entries@[k]@,
        decreases entries.len() - i,
    {
        out.push(chars_to_string(&entries[i]));
        i += 1;
    }
    assert(strings_view(out@) =~= texts_view(entries@));
    out
}

/// The targets that a list of URLs names, each with its protocol.
pub open spec fn url_entries(input: Seq<char>) -> Seq<Seq<char>> {
    list_entries(input).map_values(|u: Seq<char>| with_protocol(u))
}

/// Reads a list of URLs written with commas between them.
pub fn parse_url_list(input: &str) -> (r: Vec<String>)
    ensures
        strings_view(r@) == url_entries(input@),
{
    let entries = list_entry_chars(input);
    let mut out: Vec<String> = Vec::new();
    let mut i: usize = 0;
    while i < entries.len()
        invariant
            i <= entries.len(),
            out.len() == i,
            forall|k: int| 0 <= k < i ==> (#[trigger] out@[k])@ == with_protocol(entries@[k]@),
        decreases entries.len() - i,
    {
        out.push(chars_to_string(&ensure_protocol_chars(&entries[i])));
        i += 1;
    }
    assert(strings_view(out@) =~= url_entries(input@));
    out
}

fn clone_optional(field: &Option<String>) -> (r: Option<String>)
    ensures
        optional_text(r) == optional_text(*field),
{
    match field {
        Some(s) => Some(s.clone()),
        None => None,
    }
}

fn clone_strings(list: &Vec<String>) -> (r: Vec<String>)
    ensures
        strings_view(r@) == strings_view(list@),
{
    let mut out: Vec<String> = Vec::new();
    let mut i: usize = 0;
    while i < list.len()
        invariant
            i <= list.len(),
            out.len() == i,
            forall|k: int| 0 <= k < i ==> (#[trigger] out@[k])@ == list@[k]@,
        decreases list.len() - i,
    {
        out.push(list[i].clone());
        i += 1;
    }
    assert(strings_view(out@) =~= strings_view(list@));
    out
}

/// Builds the configuration of a run from the command-line options. Each
/// URL gets its protocol, and the user agent is resolved from its name.
pub fn config_from_args(args: &Args) -> (r: BenchmarkConfig)
    ensures
        strings_view(r.urls@) == strings_view(args.url@).map_values(
            |u: Seq<char>| with_protocol(u),
        ),
        r.method == args.method,
        optional_text(r.body) == optional_text(args.body),
        r.user_agent@ == resolve_spec(args.user_agent@),
        r.auth.auth_type == args.auth_type,
        optional_text(r.auth.username) == optional_text(args.auth_user),
        optional_text(r.auth.password) == optional_text(args.auth_pass),
        optional_text(r.auth.token) == optional_text(args.auth_token),
        optional_text(r.auth.custom_header) == optional_text(args.auth_header),
        strings_view(r.headers@) == strings_view(args.headers@),
        r.ramping == (RampingConfig {
            mode: args.mode,
            start_rate: args.start_rate,
            max_rate: args.max_rate,
            step: args.step,
            duration_seconds: args.duration,
            threads: args.threads,
            connections: args.connections,
        }),
        r.thresholds == (ThresholdConfig {
            max_error_rate: args.max_error_rate,
            max_p99_ms: args.max_p99,
        }),
        r.warmup_seconds == args.warmup,
        r.cooldown_seconds == args.cooldown,
        optional_text(r.report_dir) == optional_text(args.report_dir),
        optional_text(r.report_name) == optional_text(args.report_name),
{
    let mut urls: Vec<String> = Vec::new();
    let mut i: usize = 0;
    while i < args.url.len()
        invariant
            i <= args.url.len(),
            urls.len() == i,
            forall|k: int| 0 <= k < i ==> (#[trigger] urls@[k])@ == with_protocol(args.url@[k]@),
        decreases args.url.len() - i,
    {
        urls.push(ensure_protocol(args.url[i].as_str()));
        i += 1;
    }
    assert(strings_view(urls@) =~= strings_view(args.url@).map_values(
        |u: Seq<char>| with_protocol(u),
    ));
    BenchmarkConfig {
        urls,
        method: args.method,
        body: clone_optional(&args.body),
        user_agent: resolve_user_agent(args.user_agent.as_str()),
        auth: AuthConfig {
            auth_type: args.auth_type,
            username: clone_optional(&args.auth_user),
            password: clone_optional(&args.auth_pass),
            token: clone_optional(&args.auth_token),
            custom_header: clone_optional(&args.auth_header),
        },
        headers: clone_strings(&args.headers),
        ramping: RampingConfig {
            mode: args.mode,
            start_rate: args.start_rate,
            max_rate: args.max_rate,
            step: args.step,
            duration_seconds: args.duration,
            threads: args.threads,
            connections: args.connections,
        },
        thresholds: ThresholdConfig {
            max_error_rate: args.max_error_rate,
            max_p99_ms: args.max_p99,
        },
        warmup_seconds: args.warmup,
        cooldown_seconds: args.cooldown,
        report_dir: clone_optional(&args.report_dir),
        report_name: clone_optional(&args.report_name),
    }
}

} // verus!
