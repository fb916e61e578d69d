//! Tags that the template language can certainly read.
use vstd::prelude::*;

use crate::decimal::is_digits;
use crate::generate::fill::{
    blank_end, does_start_literal, find_blank_end, is_blank, starts_literal,
};
use crate::generate::weight::is_numeral_text;
use crate::generate::words::{
    bare, bare_text, can_go_on, can_start_name, find_run_end, goes_on, is_quote, lemma_run_end,
    run_end, starts_name,
};
use crate::text::{chars_of, has_prefix, slice_text, stands_at};

verus! {

/// Where a tag has what it holds: behind its opening, and behind a hyphen that belongs to that.
pub open spec fn inner_start(s: Seq<char>) -> int {
    if s.len() > 2 && s[2] == '-' {
        3
    } else {
        2
    }
}

pub fn find_inner_start(v: &Vec<char>) -> (r: usize)
    requires
        v@.len() >= 2,
    ensures
        r == inner_start(v@),
        r <= v@.len(),
{
    if v.len() > 2 && v[2] == '-' {
        3
    } else {
        2
    }
}

/// The place behind the first `quote` from `at` on.
pub open spec fn string_end(s: Seq<char>, quote: char, at: int) -> Option<int>
    decreases s.len() - at,
{
    if at < 0 || at >= s.len() {
        None
    } else if s[at] == quote {
        Some(at + 1)
    } else {
        string_end(s, quote, at + 1)
    }
}

/// Where the value ends that begins at `at`, where a string, a name or digits stand there.
pub open spec fn operand_end(s: Seq<char>, at: int) -> Option<int> {
    let end = run_end(s, at, true);
    let word = s.subrange(at, end);
    if at < 0 || at >= s.len() {
        None
    } else if is_quote(s[at]) {
        string_end(s, s[at], at + 1)
    } else if (starts_name(s[at]) && !starts_literal(word)) || is_digits(word) {
        Some(end)
    } else {
        None
    }
}

/// Whether filters and nothing else stand from `at` on. Where `args` says so, the arguments of a
/// filter come first.
pub open spec fn filters_from(s: Seq<char>, at: int, args: bool) -> bool
    decreases s.len() - at,
{
    if at < 0 || at > s.len() {
        false
    } else if args {
        match operand_end(s, blank_end(s, at)) {
            Some(end) => {
                let next = blank_end(s, end);
                if at < next < s.len() && s[next] == ',' {
                    filters_from(s, next + 1, true)
                } else {
                    at < next <= s.len() && filters_from(s, next, false)
                }
            },
            None => false,
        }
    } else if at == s.len() {
        true
    } else {
        let name = blank_end(s, at + 1);
        let next = blank_end(s, run_end(s, name, true));
        &&& s[at] == '|' && name < s.len() && starts_name(s[name])
        &&& if at < next < s.len() && s[next] == ':' {
            filters_from(s, next + 1, true)
        } else {
            at < next <= s.len() && filters_from(s, next, false)
        }
    }
}

/// Whether a tag is an output tag with a value and filters behind it.
pub open spec fn is_plain_output(tag: Seq<char>) -> bool {
    has_prefix(tag, "{{"@) && match operand_end(tag, blank_end(tag, inner_start(tag))) {
        Some(end) => filters_from(tag, blank_end(tag, end), false),
        None => false,
    }
}

/// Whether a character, outside strings, can stand anywhere in a logic tag.
pub open spec fn is_loose(c: char) -> bool {
    goes_on(c, true) || is_blank(c) || c == '=' || c == '<' || c == '>' || c == ',' || c == ':' || c
        == '"'
}

/// Whether all characters behind the opening of a tag can stand anywhere in it.
pub open spec fn all_loose(s: Seq<char>) -> bool {
    forall|i: int| 2 <= i < s.len() ==> is_loose(#[trigger] s[i])
}

/// Whether a tag is a logic tag made of words, strings and signs that can stand in any order.
pub open spec fn is_loose_logic(tag: Seq<char>) -> bool {
    let word = blank_end(tag, inner_start(tag));
    has_prefix(tag, "{%"@) && word < tag.len() && starts_name(tag[word]) && all_loose(bare(tag))
}

/// Whether a tag, given from its opening up to its end mark, certainly has no error in its form.
pub open spec fn is_well_formed(tag: Seq<char>) -> bool {
    is_plain_output(tag) || is_loose_logic(tag)
}

fn find_string_end(v: &Vec<char>, quote: char, from: usize) -> (r: Option<usize>)
    requires
        from <= v@.len(),
    ensures
        (match r {
            Some(end) => string_end(v@, quote, from as int) == Some(end as int) && from < end
                <= v@.len(),
            None => string_end(v@, quote, from as int) is None,
        }),
{
    let mut at: usize = from;
    while at < v.len()
        invariant
            from <= at <= v@.len(),
            string_end(v@, quote, at as int) == string_end(v@, quote, from as int),
        decreases v.len() - at,
    {
        if v[at] == quote {
            return Some(at + 1);
        }
        at += 1;
    }
    None
}

fn find_operand_end(v: &Vec<char>, at: usize) -> (r: Option<usize>)
    requires
        at <= v@.len(),
    ensures
        (match r {
            Some(end) => operand_end(v@, at as int) == Some(end as int) && at < end <= v@.len(),
            None => operand_end(v@, at as int) is None,
        }),
{
    if at >= v.len() {
        return None;
    }
    let c = v[at];
    if c == '"' || c == '\'' {
        return find_string_end(v, c, at + 1);
    }
    let end = find_run_end(v, at, true);
    proof {
        lemma_run_end(v@, at as int, true);
    }
    let word = slice_text(v, at, end);
    if can_start_name(c) {
        if does_start_literal(word.as_str()) {
            assert(!is_digits(word@)) by {
                if is_digits(word@) {
                    assert(word@[0] == c);
                }
            }
            None
        } else {
            Some(end)
        }
    } else {
        let chars = chars_of(word.as_str());
        if c != '-' && is_numeral_text(&chars) {
            assert(word@.len() > 0 ==> word@[0] == c);
            Some(end)
        } else {
            assert(!is_digits(word@)) by {
                if is_digits(word@) {
                    assert(word@[0] == c);
                }
            }
            None
        }
    }
}

fn has_filters_from(v: &Vec<char>, from: usize) -> (r: bool)
    requires
        from <= v@.len(),
    ensures
        r == filters_from(v@, from as int, false),
{
    let mut at: usize = from;
    let mut args = false;
    loop
        invariant
            at <= v@.len(),
            v.len() == v@.len(),
            filters_from(v@, at as int, args) == filters_from(v@, from as int, false),
        decreases v.len() - at,
    {
        if args {
            let start = find_blank_end(v, at);
            match find_operand_end(v, start) {
                Some(end) => {
                    let next = find_blank_end(v, end);
                    if next < v.len() && v[next] == ',' {
                        at = next + 1;
                    } else {
                        at = next;
                        args = false;
                    }
                },
                None => {
                    return false;
                },
            }
        } else {
            if at == v.len() {
                return true;
            }
            if v[at] != '|' {
                return false;
            }
            let name = find_blank_end(v, at + 1);
            if name >= v.len() || !can_start_name(v[name]) {
                return false;
            }
            proof {
                lemma_run_end(v@, name as int, true);
            }
            let next = find_blank_end(v, find_run_end(v, name, true));
            if next < v.len() && v[next] == ':' {
                at = next + 1;
                args = true;
            } else {
                at = next;
            }
        }
    }
}

fn does_write_plainly(tag: &Vec<char>) -> (r: bool)
    requires
        tag@.len() >= 2,
    ensures
        r == is_plain_output(tag@),
{
    if !stands_at(tag, &chars_of("{{"), 0) {
        return false;
    }
    let start = find_blank_end(tag, find_inner_start(tag));
    match find_operand_end(tag, start) {
        Some(end) => has_filters_from(tag, find_blank_end(tag, end)),
        None => false,
    }
}

fn has_loose_logic(tag: &Vec<char>) -> (r: bool)
    requires
        tag@.len() >= 2,
    ensures
        r == is_loose_logic(tag@),
{
    if !stands_at(tag, &chars_of("{%"), 0) {
        return false;
    }
    let word = find_blank_end(tag, find_inner_start(tag));
    if word >= tag.len() || !can_start_name(tag[word]) {
        return false;
    }
    let s = bare_text(tag);
    let mut i: usize = 2;
    while i < s.len()
        invariant
            2 <= i,
            s@ == bare(tag@),
            forall|k: int| 2 <= k < i && k < s@.len() ==> is_loose(#[trigger] s@[k]),
        decreases s.len() - i,
    {
        let c = s[i];
        if !(can_go_on(c, true) || c == ' ' || c == '\n' || c == '\r' || c == '=' || c == '<' || c
            == '>' || c == ',' || c == ':' || c == '"') {
            assert(!is_loose(s@[i as int]));
            assert(!all_loose(s@));
            return false;
        }
        i += 1;
    }
    true
}

/// Tells whether a tag certainly has no error in its form.
pub fn has_good_form(tag: &Vec<char>) -> (r: bool)
    requires
        tag@.len() >= 2,
    ensures
        r == is_well_formed(tag@),
{
    does_write_plainly(tag) || has_loose_logic(tag)
}

} // verus!
