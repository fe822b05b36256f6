//! The names the view gives to objects that the user left unnamed.
use vstd::prelude::*;

use crate::path::{Name, Path, Segment, TypePath};

verus! {

/// The character of a decimal digit.
pub open spec fn digit_char(d: nat) -> char {
    (d + 48) as char
}

/// The decimal text of a number.
pub open spec fn decimal(n: nat) -> Seq<char>
    decreases n,
{
    if n < 10 {
        seq![digit_char(n)]
    } else {
        decimal(n / 10).push(digit_char(n % 10))
    }
}

/// A character with ASCII upper-case letters turned into lower case.
pub open spec fn lower(c: char) -> char {
    if 'A' <= c && c <= 'Z' {
        (c as int + 32) as char
    } else {
        c
    }
}

/// A text with ASCII upper-case letters turned into lower case.
pub open spec fn lower_text(s: Seq<char>) -> Seq<char> {
    Seq::new(s.len(), |i: int| lower(s[i]))
}

/// The display of `segs[i..]`: each identifier in lower case followed by `_`.
pub open spec fn segs_display(segs: Seq<Segment>, i: int) -> Seq<char>
    decreases segs.len() - i,
{
    if i >= segs.len() || i < 0 {
        Seq::empty()
    } else {
        lower_text(segs[i].ident.text@) + "_"@ + segs_display(segs, i + 1)
    }
}

/// The display of a type path, the start of the names made from it.
pub open spec fn type_display(t: TypePath) -> Seq<char> {
    (if t.qself {
        "qualified_"@
    } else {
        Seq::empty()
    }) + segs_display(t.segs@, 0)
}

/// The display of `names[i..]`: each identifier followed by `_`.
pub open spec fn names_display(names: Seq<Name>, i: int) -> Seq<char>
    decreases names.len() - i,
{
    if i >= names.len() || i < 0 {
        Seq::empty()
    } else {
        names[i].text@ + "_"@ + names_display(names, i + 1)
    }
}

/// The display of a path.
pub open spec fn path_display(p: Path) -> Seq<char> {
    match p {
        Path::Type(t) => type_display(t),
        Path::Field { access, .. } => names_display(access.names@, 0),
    }
}

/// Appends one character to a string.
#[verifier::external_body]
pub(crate) fn push_char(s: &mut String, c: char)
    ensures
        final(s)@ == old(s)@.push(c),
{
    s.push(c);
}

/// The character of a decimal digit.
fn digit(d: usize) -> (c: char)
    requires
        d < 10,
    ensures
        c == digit_char(d as nat),
{
    let b: u8 = d as u8 + 48;
    b as char
}

/// Appends the decimal text of `n`.
pub fn push_decimal(s: &mut String, n: usize)
    ensures
        final(s)@ == old(s)@ + decimal(n as nat),
    decreases n,
{
    if n < 10 {
        push_char(s, digit(n));
        assert(old(s)@ + decimal(n as nat) == old(s)@.push(digit_char(n as nat)));
    } else {
        push_decimal(s, n / 10);
        push_char(s, digit(n % 10));
        assert(old(s)@ + decimal(n as nat) == old(s)@ + decimal((n / 10) as nat) + seq![digit_char((n % 10) as nat)]);
    }
}

/// A character with ASCII upper-case letters turned into lower case.
pub fn lower_char(c: char) -> (r: char)
    ensures
        r == lower(c),
{
    if 'A' <= c && c <= 'Z' {
        let b: u8 = c as u8 + 32;
        b as char
    } else {
        c
    }
}

/// Appends `text` with ASCII upper-case letters turned into lower case.
pub fn push_lower(s: &mut String, text: &String)
    ensures
        final(s)@ == old(s)@ + lower_text(text@),
{
    let ghost all = text@;
    let ghost start = s@;
    let mut i: usize = 0;
    let n = text.as_str().unicode_len();
    while i < n
        invariant
            all == text@,
            n == all.len(),
            i <= n,
            s@ == start + lower_text(all.take(i as int)),
        decreases n - i,
    {
        let c = text.as_str().get_char(i);
        push_char(s, lower_char(c));
        i = i + 1;
        assert(lower_text(all.take(i as int)) =~= lower_text(all.take(i - 1)).push(lower(all[i - 1])));
    }
    assert(all.take(n as int) =~= all);
}

/// The first name counter value and the next one.
pub open spec fn next_count(n: usize) -> usize {
    if n == usize::MAX {
        0
    } else {
        (n + 1) as usize
    }
}

/// The name made from the counter, `_declarative_` and its decimal value;
/// the counter moves on to the next value, wrapping around at the end.
pub fn count(counter: &mut usize) -> (name: String)
    ensures
        name@ == "_declarative_"@ + decimal(*old(counter) as nat),
        *final(counter) == next_count(*old(counter)),
{
    let n = *counter;
    *counter = if n == usize::MAX {
        0
    } else {
        n + 1
    };
    let mut name = String::from_str("_declarative_");
    push_decimal(&mut name, n);
    name
}

/// Appends the display of `segs[i..]`.
fn push_segs_display(s: &mut String, segs: &Vec<Segment>, i: usize)
    requires
        i <= segs.len(),
    ensures
        final(s)@ == old(s)@ + segs_display(segs@, i as int),
    decreases segs.len() - i,
{
    if i < segs.len() {
        push_lower(s, &segs[i].ident.text);
        s.append("_");
        push_segs_display(s, segs, i + 1);
        assert(old(s)@ + segs_display(segs@, i as int) == old(s)@ + lower_text(segs@[i as int].ident.text@) + "_"@ + segs_display(segs@, i + 1));
    } else {
        assert(old(s)@ + segs_display(segs@, i as int) == old(s)@);
    }
}

/// Appends the display of `names[i..]`.
fn push_names_display(s: &mut String, names: &Vec<Name>, i: usize)
    requires
        i <= names.len(),
    ensures
        final(s)@ == old(s)@ + names_display(names@, i as int),
    decreases names.len() - i,
{
    if i < names.len() {
        s.append(names[i].text.as_str());
        s.append("_");
        push_names_display(s, names, i + 1);
        assert(old(s)@ + names_display(names@, i as int) == old(s)@ + names@[i as int].text@ + "_"@ + names_display(names@, i + 1));
    } else {
        assert(old(s)@ + names_display(names@, i as int) == old(s)@);
    }
}

/// Appends the display of a type path: `qualified_` for a qualified path,
/// then each segment in lower case followed by `_`.
pub fn display_ty(t: &TypePath, s: &mut String)
    ensures
        final(s)@ == old(s)@ + type_display(*t),
{
    if t.qself {
        s.append("qualified_");
    }
    push_segs_display(s, &t.segs, 0);
    assert(old(s)@ + type_display(*t) == old(s)@ + (if t.qself { "qualified_"@ } else { Seq::<char>::empty() }) + segs_display(t.segs@, 0));
}

/// Appends the display of a path.
pub fn display_path(p: &Path, s: &mut String)
    ensures
        final(s)@ == old(s)@ + path_display(*p),
{
    match p {
        Path::Type(t) => display_ty(t, s),
        Path::Field { access, .. } => push_names_display(s, &access.names, 0),
    }
}

/// What an unnamed object is named after.
pub enum Display<'a> {
    /// The path it is built from.
    Path(&'a Path),
    /// The type it was given with `as`.
    Type(&'a TypePath),
    /// Nothing: a `'back` object without a type.
    Back,
}

/// The start of the name of an unnamed object.
pub open spec fn display_text(d: Display) -> Seq<char> {
    match d {
        Display::Path(p) => path_display(*p),
        Display::Type(t) => type_display(*t),
        Display::Back => "back_"@,
    }
}

/// The name of an unnamed object: what it is named after, then the counter
/// in decimal; the counter moves on to the next value.
pub fn auto_name(d: Display, counter: &mut usize) -> (name: String)
    ensures
        name@ == display_text(d) + decimal(*old(counter) as nat),
        *final(counter) == next_count(*old(counter)),
{
    let n = *counter;
    *counter = if n == usize::MAX {
        0
    } else {
        n + 1
    };
    let mut name = String::new();
    match d {
        Display::Path(p) => display_path(p, &mut name),
        Display::Type(t) => display_ty(t, &mut name),
        Display::Back => name.append("back_"),
    }
    push_decimal(&mut name, n);
    name
}

/// The decimal text of a number has one character exactly when the number
/// is below ten.
proof fn lemma_decimal_len(n: nat)
    ensures
        decimal(n).len() >= 1,
        (decimal(n).len() == 1) == (n < 10),
    decreases n,
{
    if n >= 10 {
        lemma_decimal_len(n / 10);
    }
}

/// Two digits with the same character are the same digit.
proof fn lemma_digit_char_injective(a: nat, b: nat)
    requires
        a < 10,
        b < 10,
        digit_char(a) == digit_char(b),
    ensures
        a == b,
{
    assert(digit_char(a) as int == a + 48);
    assert(digit_char(b) as int == b + 48);
}

/// Different numbers have different decimal texts.
pub proof fn law_decimal_injective(a: nat, b: nat)
    requires
        decimal(a) == decimal(b),
    ensures
        a == b,
    decreases a,
{
    lemma_decimal_len(a);
    lemma_decimal_len(b);
    if a < 10 {
        assert(decimal(a)[0] == digit_char(a));
        assert(decimal(b)[0] == digit_char(b));
        lemma_digit_char_injective(a, b);
    } else {
        let da = decimal(a);
        let db = decimal(b);
        assert(da.last() == digit_char(a % 10));
        assert(db.last() == digit_char(b % 10));
        lemma_digit_char_injective(a % 10, b % 10);
        assert(da.drop_last() =~= decimal(a / 10));
        assert(db.drop_last() =~= decimal(b / 10));
        law_decimal_injective(a / 10, b / 10);
    }
}

/// Names made by [`count`] from different counter values are different, so
/// the names given before the counter wraps around never repeat.
pub proof fn law_count_names_distinct(c1: usize, c2: usize)
    requires
        c1 != c2,
    ensures
        "_declarative_"@ + decimal(c1 as nat) != "_declarative_"@ + decimal(c2 as nat),
{
    let p = "_declarative_"@;
    if p + decimal(c1 as nat) == p + decimal(c2 as nat) {
        assert((p + decimal(c1 as nat)).skip(p.len() as int) =~= decimal(c1 as nat));
        assert((p + decimal(c2 as nat)).skip(p.len() as int) =~= decimal(c2 as nat));
        law_decimal_injective(c1 as nat, c2 as nat);
    }
}

/// Whether a character may stand in an identifier: an ASCII letter or
/// digit, or `_`.
pub open spec fn ident_char(c: char) -> bool {
    let n = c as int;
    (48 <= n <= 57) || (65 <= n <= 90) || (97 <= n <= 122) || n == 95
}

/// Whether a text is an identifier that no keyword can be: `_`, then at
/// least one more character, each allowed in an identifier.
pub open spec fn underscore_ident(s: Seq<char>) -> bool {
    &&& s.len() >= 2
    &&& s[0] == '_'
    &&& forall|i: int| 0 <= i < s.len() ==> #[trigger] ident_char(s[i])
}

/// The decimal text of a number is made of digits.
proof fn lemma_decimal_digits(n: nat)
    ensures
        decimal(n).len() >= 1,
        forall|i: int| 0 <= i < decimal(n).len() ==> 48 <= #[trigger] decimal(n)[i] as int <= 57,
    decreases n,
{
    if n >= 10 {
        lemma_decimal_digits(n / 10);
        assert(digit_char(n % 10) as int == n % 10 + 48);
    } else {
        assert(digit_char(n) as int == n + 48);
    }
}

/// Every name [`count`] makes is an identifier: `_declarative_` then the
/// counter's decimal digits.
pub proof fn law_count_is_identifier(c: usize)
    ensures
        underscore_ident("_declarative_"@ + decimal(c as nat)),
{
    reveal_strlit("_declarative_");
    lemma_decimal_digits(c as nat);
    let p = "_declarative_"@;
    let s = p + decimal(c as nat);
    assert forall|i: int| 0 <= i < s.len() implies #[trigger] ident_char(s[i]) by {
        if i >= p.len() {
            assert(s[i] == decimal(c as nat)[i - p.len()]);
        }
    }
}

} // verus!
