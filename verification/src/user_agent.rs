//! The named user-agent strings a run can present itself with.

use vstd::prelude::*;
use crate::text::{
    chars_contain, chars_equal, chars_replace, chars_to_string, contains_text, lowercase_chars,
    lowercased, replace_char, str_chars,
};

verus! {

/// A user agent under the name a menu shows.
#[derive(Debug, Clone, Copy)]
pub struct UserAgentPreset {
    pub name: &'static str,
    pub value: &'static str,
}

/// The presets as pairs of name and value. The last one stands for a user
/// agent typed in by hand and has no value.
pub open spec fn preset_list() -> Seq<(Seq<char>, Seq<char>)> {
    seq![
        ("ohabench (Default)"@, "ohabench/0.1.0"@),
        (
            "Chrome (Windows)"@,
            "Mozilla/5.0 (Windows NT 10.0; Win64; x64) AppleWebKit/537.36 (KHTML, like Gecko) Chrome/120.0.0.0 Safari/537.36"@,
        ),
        (
            "Chrome (macOS)"@,
            "Mozilla/5.0 (Macintosh; Intel Mac OS X 10_15_7) AppleWebKit/537.36 (KHTML, like Gecko) Chrome/120.0.0.0 Safari/537.36"@,
        ),
        (
            "Chrome (Linux)"@,
            "Mozilla/5.0 (X11; Linux x86_64) AppleWebKit/537.36 (KHTML, like Gecko) Chrome/120.0.0.0 Safari/537.36"@,
        ),
        (
            "Firefox (Windows)"@,
            "Mozilla/5.0 (Windows NT 10.0; Win64; x64; rv:121.0) Gecko/20100101 Firefox/121.0"@,
        ),
        (
            "Firefox (macOS)"@,
            "Mozilla/5.0 (Macintosh; Intel Mac OS X 10.15; rv:121.0) Gecko/20100101 Firefox/121.0"@,
        ),
        (
            "Firefox (Linux)"@,
            "Mozilla/5.0 (X11; Linux x86_64; rv:121.0) Gecko/20100101 Firefox/121.0"@,
        ),
        (
            "Safari (macOS)"@,
            "Mozilla/5.0 (Macintosh; Intel Mac OS X 10_15_7) AppleWebKit/605.1.15 (KHTML, like Gecko) Version/17.2 Safari/605.1.15"@,
        ),
        (
            "Safari (iOS)"@,
            "Mozilla/5.0 (iPhone; CPU iPhone OS 17_2 like Mac OS X) AppleWebKit/605.1.15 (KHTML, like Gecko) Version/17.2 Mobile/15E148 Safari/604.1"@,
        ),
        (
            "Edge (Windows)"@,
            "Mozilla/5.0 (Windows NT 10.0; Win64; x64) AppleWebKit/537.36 (KHTML, like Gecko) Chrome/120.0.0.0 Safari/537.36 Edg/120.0.0.0"@,
        ),
        ("curl"@, "curl/8.5.0"@),
        (
            "Googlebot"@,
            "Mozilla/5.0 (compatible; Googlebot/2.1; +http://www.google.com/bot.html)"@,
        ),
        ("Custom..."@, ""@),
    ]
}

/// The presets, in menu order.
pub fn user_agent_presets() -> (r: Vec<UserAgentPreset>)
    ensures
        r@.len() == preset_list().len(),
        forall|i: int|
            0 <= i < r@.len() ==> (#[trigger] r@[i].name@, r@[i].value@) == preset_list()[i],
{
    vec![
        UserAgentPreset { name: "ohabench (Default)", value: "ohabench/0.1.0" },
        UserAgentPreset {
            name: "Chrome (Windows)",
            value: "Mozilla/5.0 (Windows NT 10.0; Win64; x64) AppleWebKit/537.36 (KHTML, like Gecko) Chrome/120.0.0.0 Safari/537.36",
        },
        UserAgentPreset {
            name: "Chrome (macOS)",
            value: "Mozilla/5.0 (Macintosh; Intel Mac OS X 10_15_7) AppleWebKit/537.36 (KHTML, like Gecko) Chrome/120.0.0.0 Safari/537.36",
        },
        UserAgentPreset {
            name: "Chrome (Linux)",
            value: "Mozilla/5.0 (X11; Linux x86_64) AppleWebKit/537.36 (KHTML, like Gecko) Chrome/120.0.0.0 Safari/537.36",
        },
        UserAgentPreset {
            name: "Firefox (Windows)",
            value: "Mozilla/5.0 (Windows NT 10.0; Win64; x64; rv:121.0) Gecko/20100101 Firefox/121.0",
        },
        UserAgentPreset {
            name: "Firefox (macOS)",
            value: "Mozilla/5.0 (Macintosh; Intel Mac OS X 10.15; rv:121.0) Gecko/20100101 Firefox/121.0",
        },
        UserAgentPreset {
            name: "Firefox (Linux)",
            value: "Mozilla/5.0 (X11; Linux x86_64; rv:121.0) Gecko/20100101 Firefox/121.0",
        },
        UserAgentPreset {
            name: "Safari (macOS)",
            value: "Mozilla/5.0 (Macintosh; Intel Mac OS X 10_15_7) AppleWebKit/605.1.15 (KHTML, like Gecko) Version/17.2 Safari/605.1.15",
        },
        UserAgentPreset {
            name: "Safari (iOS)",
            value: "Mozilla/5.0 (iPhone; CPU iPhone OS 17_2 like Mac OS X) AppleWebKit/605.1.15 (KHTML, like Gecko) Version/17.2 Mobile/15E148 Safari/604.1",
        },
        UserAgentPreset {
            name: "Edge (Windows)",
            value: "Mozilla/5.0 (Windows NT 10.0; Win64; x64) AppleWebKit/537.36 (KHTML, like Gecko) Chrome/120.0.0.0 Safari/537.36 Edg/120.0.0.0",
        },
        UserAgentPreset { name: "curl", value: "curl/8.5.0" },
        UserAgentPreset {
            name: "Googlebot",
            value: "Mozilla/5.0 (compatible; Googlebot/2.1; +http://www.google.com/bot.html)",
        },
        UserAgentPreset { name: "Custom...", value: "" },
    ]
}

/// The names of the presets, in menu order.
pub fn get_preset_names() -> (r: Vec<&'static str>)
    ensures
        r@.len() == preset_list().len(),
        forall|i: int| 0 <= i < r@.len() ==> (#[trigger] r@[i])@ == preset_list()[i].0,
{
    let presets = user_agent_presets();
    let mut names: Vec<&'static str> = Vec::new();
    let mut i: usize = 0;
    while i < presets.len()
        invariant
            i <= presets.len(),
            names.len() == i,
            presets@.len() == preset_list().len(),
            forall|k: int|
                0 <= k < presets@.len() ==> (#[trigger] presets@[k].name@, presets@[k].value@)
                    == preset_list()[k],
            forall|k: int| 0 <= k < i ==> (#[trigger] names@[k])@ == preset_list()[k].0,
        decreases presets.len() - i,
    {
        assert((presets@[i as int].name@, presets@[i as int].value@) == preset_list()[i as int]);
        names.push(presets[i].name);
        i += 1;
    }
    names
}

/// A preset answers to an input that is part of its name, and to one that
/// holds its name with hyphens for spaces; both in lower case.
pub open spec fn preset_answers(name_lower: Seq<char>, input_lower: Seq<char>) -> bool {
    contains_text(name_lower, input_lower) || contains_text(
        input_lower,
        replace_char(name_lower, ' ', '-'),
    )
}

/// The place of the first preset that has a value and answers to the input;
/// the number of presets where none does. `names_lower` holds the names of
/// the presets from `from` on, in lower case.
pub open spec fn first_answering(
    names_lower: Seq<Seq<char>>,
    input_lower: Seq<char>,
    from: int,
) -> int
    decreases names_lower.len(),
{
    if names_lower.len() == 0 {
        from
    } else if preset_answers(names_lower[0], input_lower) && 0 <= from < preset_list().len()
        && preset_list()[from].1.len() > 0 {
        from
    } else {
        first_answering(names_lower.drop_first(), input_lower, from + 1)
    }
}

/// The preset that a short name stands for.
pub open spec fn alias_preset(input_lower: Seq<char>) -> Option<int> {
    if input_lower == "ohabench"@ || input_lower == "default"@ {
        Some(0)
    } else if input_lower == "chrome-windows"@ || input_lower == "chrome-win"@ {
        Some(1)
    } else if input_lower == "chrome-macos"@ || input_lower == "chrome-mac"@ {
        Some(2)
    } else if input_lower == "chrome-linux"@ || input_lower == "chrome"@ {
        Some(3)
    } else if input_lower == "firefox-windows"@ || input_lower == "firefox-win"@ {
        Some(4)
    } else if input_lower == "firefox-macos"@ || input_lower == "firefox-mac"@ {
        Some(5)
    } else if input_lower == "firefox-linux"@ || input_lower == "firefox"@ {
        Some(6)
    } else if input_lower == "safari-macos"@ || input_lower == "safari-mac"@ || input_lower
        == "safari"@ {
        Some(7)
    } else if input_lower == "safari-ios"@ || input_lower == "safari-iphone"@ {
        Some(8)
    } else if input_lower == "edge"@ || input_lower == "edge-windows"@ {
        Some(9)
    } else if input_lower == "curl"@ {
        Some(10)
    } else if input_lower == "googlebot"@ || input_lower == "google"@ {
        Some(11)
    } else {
        None
    }
}

/// The user agent that `input` stands for, given `input` and the names of
/// the presets in lower case: the value of the first preset that answers,
/// else the value that a short name stands for, else `input` itself.
pub open spec fn resolve_with_spec(
    input: Seq<char>,
    input_lower: Seq<char>,
    names_lower: Seq<Seq<char>>,
) -> Seq<char> {
    let at = first_answering(names_lower, input_lower, 0);
    if 0 <= at < preset_list().len() && at < names_lower.len() {
        preset_list()[at].1
    } else {
        match alias_preset(input_lower) {
            Some(k) => preset_list()[k].1,
            None => input,
        }
    }
}

/// The names of the presets in lower case.
pub open spec fn preset_names_lower() -> Seq<Seq<char>> {
    preset_list().map_values(|p: (Seq<char>, Seq<char>)| lowercased(p.0))
}

/// The user agent that `input` stands for.
pub open spec fn resolve_spec(input: Seq<char>) -> Seq<char> {
    resolve_with_spec(input, lowercased(input), preset_names_lower())
}

fn is_text(v: &Vec<char>, s: &str) -> (r: bool)
    ensures
        r == (v@ == s@),
{
    chars_equal(v, &str_chars(s))
}

fn alias_of(input_lower: &Vec<char>) -> (r: Option<usize>)
    ensures
        match r {
            Some(k) => alias_preset(input_lower@) == Some(k as int) && k < 12,
            None => alias_preset(input_lower@) is None,
        },
{
    if is_text(input_lower, "ohabench") || is_text(input_lower, "default") {
        Some(0)
    } else if is_text(input_lower, "chrome-windows") || is_text(input_lower, "chrome-win") {
        Some(1)
    } else if is_text(input_lower, "chrome-macos") || is_text(input_lower, "chrome-mac") {
        Some(2)
    } else if is_text(input_lower, "chrome-linux") || is_text(input_lower, "chrome") {
        Some(3)
    } else if is_text(input_lower, "firefox-windows") || is_text(input_lower, "firefox-win") {
        Some(4)
    } else if is_text(input_lower, "firefox-macos") || is_text(input_lower, "firefox-mac") {
        Some(5)
    } else if is_text(input_lower, "firefox-linux") || is_text(input_lower, "firefox") {
        Some(6)
    } else if is_text(input_lower, "safari-macos") || is_text(input_lower, "safari-mac")
        || is_text(input_lower, "safari") {
        Some(7)
    } else if is_text(input_lower, "safari-ios") || is_text(input_lower, "safari-iphone") {
        Some(8)
    } else if is_text(input_lower, "edge") || is_text(input_lower, "edge-windows") {
        Some(9)
    } else if is_text(input_lower, "curl") {
        Some(10)
    } else if is_text(input_lower, "googlebot") || is_text(input_lower, "google") {
        Some(11)
    } else {
        None
    }
}

proof fn lemma_first_answering(
    names_lower: Seq<Seq<char>>,
    input_lower: Seq<char>,
    from: int,
    at: int,
)
    requires
        0 <= at <= names_lower.len(),
        0 <= from,
        forall|i: int|
            0 <= i < at ==> !(preset_answers(#[trigger] names_lower[i], input_lower) && from + i
                < preset_list().len() && preset_list()[from + i].1.len() > 0),
        at < names_lower.len() ==> preset_answers(names_lower[at], input_lower) && from + at
            < preset_list().len() && preset_list()[from + at].1.len() > 0,
    ensures
        first_answering(names_lower, input_lower, from) == from + at,
    decreases at,
{
    if at > 0 {
        let rest = names_lower.drop_first();
        assert forall|i: int| 0 <= i < at - 1 implies !(preset_answers(
            #[trigger] rest[i],
            input_lower,
        ) && from + 1 + i < preset_list().len() && preset_list()[from + 1 + i].1.len() > 0) by {
            assert(rest[i] == names_lower[i + 1]);
        }
        assert(!(preset_answers(names_lower[0], input_lower) && from + 0 < preset_list().len()
            && preset_list()[from + 0].1.len() > 0));
        lemma_first_answering(rest, input_lower, from + 1, at - 1);
    }
}

/// Resolves a user agent from `input`, its lower-case form and the
/// lower-case names of the presets.
pub fn resolve_with(input: &str, input_lower: &Vec<char>, names_lower: &Vec<Vec<char>>) -> (r:
    String)
    ensures
        r@ == resolve_with_spec(input@, input_lower@, names_lower@.map_values(|n: Vec<char>| n@)),
{
    let ghost names = names_lower@.map_values(|n: Vec<char>| n@);
    let presets = user_agent_presets();
    let mut at: usize = 0;
    while at < names_lower.len() && at < presets.len()
        invariant
            at <= names_lower.len(),
            at <= presets.len(),
            presets@.len() == preset_list().len(),
            names == names_lower@.map_values(|n: Vec<char>| n@),
            forall|k: int|
                0 <= k < presets@.len() ==> (#[trigger] presets@[k].name@, presets@[k].value@)
                    == preset_list()[k],
            forall|i: int|
                0 <= i < at ==> !(preset_answers(#[trigger] names[i], input_lower@) && i
                    < preset_list().len() && preset_list()[i].1.len() > 0),
        decreases names_lower.len() - at,
    {
        let name_lower = &names_lower[at];
        assert(names[at as int] == name_lower@);
        assert((presets@[at as int].name@, presets@[at as int].value@) == preset_list()[at as int]);
        let hyphened = chars_replace(name_lower, ' ', '-');
        let answers = chars_contain(name_lower, input_lower) || chars_contain(
            input_lower,
            &hyphened,
        );
        let value = str_chars(presets[at].value);
        if answers && value.len() > 0 {
            proof {
                lemma_first_answering(names, input_lower@, 0, at as int);
            }
            return chars_to_string(&value);
        }
        at += 1;
    }
    proof {
        if at < names_lower.len() {
            assert(at == preset_list().len());
            lemma_first_answering_beyond(names, input_lower@, 0);
        } else {
            lemma_first_answering(names, input_lower@, 0, at as int);
        }
    }
    match alias_of(input_lower) {
        Some(k) => {
            assert((presets@[k as int].name@, presets@[k as int].value@) == preset_list()[k as int]);
            presets[k].value.to_owned()
        },
        None => input.to_owned(),
    }
}

/// No preset answers where none of the presets that exist does, however many
/// names are given.
proof fn lemma_first_answering_beyond(names_lower: Seq<Seq<char>>, input_lower: Seq<char>, from: int)
    requires
        0 <= from,
        forall|i: int|
            0 <= i < names_lower.len() && from + i < preset_list().len() ==> !(preset_answers(
                #[trigger] names_lower[i],
                input_lower,
            ) && preset_list()[from + i].1.len() > 0),
    ensures
        first_answering(names_lower, input_lower, from) == from + names_lower.len(),
    decreases names_lower.len(),
{
    if names_lower.len() > 0 {
        let rest = names_lower.drop_first();
        assert forall|i: int|
            0 <= i < rest.len() && from + 1 + i < preset_list().len() implies !(preset_answers(
            #[trigger] rest[i],
            input_lower,
        ) && preset_list()[from + 1 + i].1.len() > 0) by {
            assert(rest[i] == names_lower[i + 1]);
        }
        assert(!(preset_answers(names_lower[0], input_lower) && from + 0 < preset_list().len()
            && preset_list()[from + 0].1.len() > 0));
        lemma_first_answering_beyond(rest, input_lower, from + 1);
    }
}

/// Resolves a user agent from the name of a preset, a short name, or a user
/// agent given in full.
pub fn resolve_user_agent(input: &str) -> (r: String)
    ensures
        r@ == resolve_spec(input@),
{
    let input_lower = lowercase_chars(&str_chars(input));
    let presets = user_agent_presets();
    let mut names_lower: Vec<Vec<char>> = Vec::new();
    let mut i: usize = 0;
    while i < presets.len()
        invariant
            i <= presets.len(),
            names_lower.len() == i,
            presets@.len() == preset_list().len(),
            forall|k: int|
                0 <= k < presets@.len() ==> (#[trigger] presets@[k].name@, presets@[k].value@)
                    == preset_list()[k],
            forall|k: int| 0 <= k < i ==> (#[trigger] names_lower@[k])@ == lowercased(
                preset_list()[k].0,
            ),
        decreases presets.len() - i,
    {
        assert((presets@[i as int].name@, presets@[i as int].value@) == preset_list()[i as int]);
        names_lower.push(lowercase_chars(&str_chars(presets[i].name)));
        i += 1;
    }
    assert(names_lower@.map_values(|n: Vec<char>| n@) =~= preset_names_lower());
    resolve_with(input, &input_lower, &names_lower)
}

} // verus!
