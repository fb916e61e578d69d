//! Names in kebab case.
use vstd::prelude::*;

use crate::text::{ascii_lower, chars_of};

verus! {

/// The filter that puts a name into kebab case, as templates call it.
#[derive(Debug, Clone, Copy)]
pub struct KebabCaseFilter;

/// What makes the filter from its mention in a template.
#[derive(Debug, Clone, Copy)]
pub struct KebabCaseFilterParser;

/// Whether Unicode counts a character as upper case.
pub uninterp spec fn is_upper(c: char) -> bool;

/// The characters that are the lower case form of a character.
pub uninterp spec fn lower_form(c: char) -> Seq<char>;

/// Calls `char::is_uppercase`. Claims that the result depends on the character alone, and that
/// among the ASCII characters the letters from `A` to `Z` are upper case and no others.
#[verifier::external_body]
fn char_is_upper(c: char) -> (r: bool)
    ensures
        r == is_upper(c),
        c <= '\u{7f}' ==> (r <==> 'A' <= c <= 'Z'),
{
    c.is_uppercase()
}

/// Calls `char::to_lowercase` and collects what it yields. Claims that this depends on the
/// character alone, that it is at least one character, and that for an ASCII character it is its
/// ASCII lower case.
#[verifier::external_body]
fn char_to_lower(c: char) -> (r: Vec<char>)
    ensures
        r@ == lower_form(c),
        r@.len() > 0,
        c <= '\u{7f}' ==> r@ == seq![ascii_lower(c)],
{
    c.to_lowercase().collect()
}

/// What the character at position `i` of a name becomes: an upper case letter that is not the first
/// character gets a hyphen before it, an underscore or a space becomes a hyphen, and letters
/// become lower case.
pub open spec fn kebab_piece(s: Seq<char>, i: int) -> Seq<char> {
    let c = s[i];
    if is_upper(c) && i > 0 {
        seq!['-'].push(lower_form(c)[0])
    } else if c == '_' || c == ' ' {
        seq!['-']
    } else {
        Seq::empty().push(lower_form(c)[0])
    }
}

/// The first `n` characters of a name in kebab case.
pub open spec fn kebab_prefix(s: Seq<char>, n: nat) -> Seq<char>
    decreases n,
{
    if n == 0 {
        Seq::empty()
    } else {
        kebab_prefix(s, (n - 1) as nat) + kebab_piece(s, n - 1)
    }
}

/// A name in kebab case.
pub open spec fn kebab(s: Seq<char>) -> Seq<char> {
    kebab_prefix(s, s.len())
}

/// Whether all characters are ASCII characters.
pub open spec fn is_ascii(s: Seq<char>) -> bool {
    forall|i: int| 0 <= i < s.len() ==> #[trigger] s[i] <= '\u{7f}'
}

/// What the character at position `i` of an ASCII name becomes.
pub open spec fn ascii_kebab_piece(s: Seq<char>, i: int) -> Seq<char> {
    let c = s[i];
    if 'A' <= c <= 'Z' && i > 0 {
        seq!['-'].push(ascii_lower(c))
    } else if c == '_' || c == ' ' {
        seq!['-']
    } else {
        Seq::empty().push(ascii_lower(c))
    }
}

/// The first `n` characters of an ASCII name in kebab case.
pub open spec fn ascii_kebab_prefix(s: Seq<char>, n: nat) -> Seq<char>
    decreases n,
{
    if n == 0 {
        Seq::empty()
    } else {
        ascii_kebab_prefix(s, (n - 1) as nat) + ascii_kebab_piece(s, n - 1)
    }
}

/// An ASCII name in kebab case.
pub open spec fn ascii_kebab(s: Seq<char>) -> Seq<char> {
    ascii_kebab_prefix(s, s.len())
}

/// Puts a name in Pascal, camel or snake case into kebab case.
pub fn kebab_case(s: &str) -> (r: String)
    ensures
        r@ == kebab(s@),
        is_ascii(s@) ==> r@ == ascii_kebab(s@),
{
    let v = chars_of(s);
    let mut r = String::new();
    assert(r@ =~= Seq::empty());
    let mut i: usize = 0;
    while i < v.len()
        invariant
            i <= v@.len(),
            v@ == s@,
            r@ == kebab_prefix(s@, i as nat),
            is_ascii(s@) ==> r@ == ascii_kebab_prefix(s@, i as nat),
        decreases v.len() - i,
    {
        let ghost before = r@;
        let c: char = v[i];
        if char_is_upper(c) && i > 0 {
            let lower = char_to_lower(c);
            r.push('-');
            r.push(lower[0]);
        } else if c == '_' || c == ' ' {
            r.push('-');
        } else {
            let lower = char_to_lower(c);
            r.push(lower[0]);
        }
        assert(r@ =~= before + kebab_piece(s@, i as int));
        assert(is_ascii(s@) ==> r@ =~= before + ascii_kebab_piece(s@, i as int));
        i += 1;
    }
    r
}

/// A character that can stand in a name in kebab case.
pub open spec fn is_kebab_char(c: char) -> bool {
    !('A' <= c <= 'Z') && c != '_' && c != ' '
}

/// An ASCII name in kebab case has no upper case letter, no underscore and no space.
pub proof fn law_kebab_is_lower_case(s: Seq<char>)
    requires
        is_ascii(s),
    ensures
        forall|i: int| 0 <= i < ascii_kebab(s).len() ==> is_kebab_char(#[trigger] ascii_kebab(s)[i]),
{
    lemma_kebab_prefix(s, s.len());
}

/// Putting an ASCII name that is in kebab case into kebab case changes nothing.
pub proof fn law_kebab_twice_is_kebab(s: Seq<char>)
    requires
        is_ascii(s),
    ensures
        is_ascii(ascii_kebab(s)),
        ascii_kebab(ascii_kebab(s)) == ascii_kebab(s),
{
    lemma_kebab_prefix(s, s.len());
    let t = ascii_kebab(s);
    lemma_kebab_of_kebab(t, t.len());
    assert(t.take(t.len() as int) =~= t);
}

proof fn lemma_kebab_of_kebab(t: Seq<char>, n: nat)
    requires
        n <= t.len(),
        is_ascii(t),
        forall|i: int| 0 <= i < t.len() ==> is_kebab_char(#[trigger] t[i]),
    ensures
        ascii_kebab_prefix(t, n) == t.take(n as int),
    decreases n,
{
    if n > 0 {
        lemma_kebab_of_kebab(t, (n - 1) as nat);
        assert(is_kebab_char(t[n - 1]));
        assert(t.take(n as int) =~= t.take(n - 1) + ascii_kebab_piece(t, n - 1));
    }
}

/// What the last character of an ASCII name adds to it in kebab case. An upper case letter adds the
/// lower case one, behind a hyphen unless it is the first; an underscore or a blank adds a hyphen; any
/// other character adds itself.
pub proof fn law_kebab_goes_on_with_each_character(s: Seq<char>, c: char, lower: char)
    requires
        'A' <= c <= 'Z' ==> lower as u32 == c as u32 + 32,
    ensures
        ascii_kebab(Seq::empty()) == Seq::<char>::empty(),
        'A' <= c <= 'Z' && s.len() > 0 ==> ascii_kebab(s.push(c)) == ascii_kebab(s) + seq!['-', lower],
        'A' <= c <= 'Z' && s.len() == 0 ==> ascii_kebab(s.push(c)) == seq![lower],
        c == '_' || c == ' ' ==> ascii_kebab(s.push(c)) == ascii_kebab(s).push('-'),
        !('A' <= c <= 'Z') && c != '_' && c != ' ' ==> ascii_kebab(s.push(c)) == ascii_kebab(s).push(
            c,
        ),
{
    lemma_kebab_of_start(s, c, s.len());
    let n = s.len();
    assert(ascii_kebab(s.push(c)) == ascii_kebab_prefix(s.push(c), n) + ascii_kebab_piece(
        s.push(c),
        n as int,
    ));
    assert('A' <= c <= 'Z' ==> ascii_lower(c) == lower);
    assert('A' <= c <= 'Z' && n > 0 ==> ascii_kebab(s) + seq!['-', lower] =~= ascii_kebab(s)
        + seq!['-'].push(lower));
    assert('A' <= c <= 'Z' && n == 0 ==> ascii_kebab(s) + Seq::empty().push(lower) =~= seq![lower]);
    assert(ascii_kebab(s).push('-') =~= ascii_kebab(s) + seq!['-']);
    assert(ascii_kebab(s).push(c) =~= ascii_kebab(s) + Seq::empty().push(c));
}

proof fn lemma_kebab_of_start(s: Seq<char>, c: char, n: nat)
    requires
        n <= s.len(),
    ensures
        ascii_kebab_prefix(s.push(c), n) == ascii_kebab_prefix(s, n),
    decreases n,
{
    if n > 0 {
        lemma_kebab_of_start(s, c, (n - 1) as nat);
    }
}

/// What the last character of a name adds to it in kebab case, where `lower` is the lower case form of
/// the character. An upper case letter that is not the first adds a hyphen too; an underscore or a
/// blank adds a hyphen alone.
pub proof fn law_any_name_goes_on_with_each_character(s: Seq<char>, c: char, lower: char)
    requires
        lower_form(c).len() > 0 && lower_form(c)[0] == lower,
    ensures
        kebab(Seq::empty()) == Seq::<char>::empty(),
        is_upper(c) && s.len() > 0 ==> kebab(s.push(c)) == kebab(s) + seq!['-', lower],
        !(is_upper(c) && s.len() > 0) && (c == '_' || c == ' ') ==> kebab(s.push(c)) == kebab(s).push(
            '-',
        ),
        !(is_upper(c) && s.len() > 0) && c != '_' && c != ' ' ==> kebab(s.push(c)) == kebab(s).push(
            lower,
        ),
{
    lemma_any_kebab_of_start(s, c, s.len());
    let n = s.len();
    assert(kebab(s.push(c)) == kebab_prefix(s.push(c), n) + kebab_piece(s.push(c), n as int));
    assert(kebab(s) + seq!['-', lower] =~= kebab(s) + seq!['-'].push(lower));
    assert(kebab(s).push('-') =~= kebab(s) + seq!['-']);
    assert(kebab(s).push(lower) =~= kebab(s) + Seq::empty().push(lower));
}

proof fn lemma_any_kebab_of_start(s: Seq<char>, c: char, n: nat)
    requires
        n <= s.len(),
    ensures
        kebab_prefix(s.push(c), n) == kebab_prefix(s, n),
    decreases n,
{
    if n > 0 {
        lemma_any_kebab_of_start(s, c, (n - 1) as nat);
    }
}

/// What a hyphen can stand for, itself among them.
pub open spec fn is_separator(c: char) -> bool {
    c == '-' || c == '_' || c == ' '
}

/// A text without its separators, in lower case.
pub open spec fn bare_letters(s: Seq<char>) -> Seq<char> {
    s.filter(|c: char| !is_separator(c)).map_values(|c: char| ascii_lower(c))
}

/// All letters, digits and other characters of an ASCII name are kept, in order and in lower case:
/// the name and its kebab case differ in separators and in case alone.
pub proof fn law_kebab_keeps_letters(s: Seq<char>)
    requires
        is_ascii(s),
    ensures
        bare_letters(ascii_kebab(s)) == bare_letters(s),
{
    lemma_letters_of_prefix(s, s.len());
    assert(s.take(s.len() as int) =~= s);
}

proof fn lemma_letters_of_prefix(s: Seq<char>, n: nat)
    requires
        is_ascii(s),
        n <= s.len(),
    ensures
        bare_letters(ascii_kebab_prefix(s, n)) == bare_letters(s.take(n as int)),
    decreases n,
{
    reveal(Seq::filter);
    let pred = |c: char| !is_separator(c);
    if n > 0 {
        lemma_letters_of_prefix(s, (n - 1) as nat);
        let before = ascii_kebab_prefix(s, (n - 1) as nat);
        let piece = ascii_kebab_piece(s, n - 1);
        let c = s[n - 1];
        assert(c <= '\u{7f}');
        let next = s.take(n as int);
        assert(next.drop_last() =~= s.take(n - 1));
        assert(next.last() == c);
        Seq::filter_distributes_over_add(before, piece, pred);
        reveal_with_fuel(Seq::filter, 3);
        assert(ascii_lower(ascii_lower(c)) == ascii_lower(c));
        assert(bare_letters(before + piece) =~= bare_letters(before) + bare_letters(piece));
        if 'A' <= c <= 'Z' && n - 1 > 0 {
            assert(piece.drop_last() =~= seq!['-']);
            assert(piece.drop_last().drop_last() =~= Seq::empty());
            assert(piece.last() == ascii_lower(c));
        } else {
            assert(piece.drop_last() =~= Seq::empty());
        }
        if is_separator(c) {
            assert(bare_letters(piece) =~= Seq::empty());
        } else {
            assert(bare_letters(piece) =~= seq![ascii_lower(c)]);
        }
        assert(bare_letters(next) =~= bare_letters(s.take(n - 1)) + bare_letters(piece));
    } else {
        assert(s.take(0) =~= Seq::empty());
    }
}

proof fn lemma_kebab_prefix(s: Seq<char>, n: nat)
    requires
        is_ascii(s),
        n <= s.len(),
    ensures
        is_ascii(ascii_kebab_prefix(s, n)),
        forall|i: int|
            0 <= i < ascii_kebab_prefix(s, n).len() ==> is_kebab_char(
                #[trigger] ascii_kebab_prefix(s, n)[i],
            ),
    decreases n,
{
    if n > 0 {
        lemma_kebab_prefix(s, (n - 1) as nat);
        let before = ascii_kebab_prefix(s, (n - 1) as nat);
        let piece = ascii_kebab_piece(s, n - 1);
        assert(s[n - 1] <= '\u{7f}');
        assert forall|i: int| 0 <= i < piece.len() implies is_kebab_char(#[trigger] piece[i])
            && piece[i] <= '\u{7f}' by {}
        assert forall|i: int| 0 <= i < (before + piece).len() implies is_kebab_char(
            #[trigger] (before + piece)[i],
        ) && (before + piece)[i] <= '\u{7f}' by {
            if i >= before.len() {
                assert((before + piece)[i] == piece[i - before.len()]);
            } else {
                assert((before + piece)[i] == before[i]);
            }
        }
    }
}

} // verus!
