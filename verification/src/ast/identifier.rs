//! The rules for identifiers and for the text of string literals.

use vstd::prelude::*;
use vstd::string::StringExecFns;

verus! {

/// What `char::is_alphanumeric` answers for a character: whether Unicode
/// classes it as alphabetic or numeric.
pub uninterp spec fn is_alphanumeric(c: char) -> bool;

/// `char::is_alphanumeric` answers by the Unicode classes of the character
/// alone.
pub assume_specification[ char::is_alphanumeric ](c: char) -> (r: bool)
    ensures
        r == is_alphanumeric(c),
;

/// `String::push` appends one character.
pub assume_specification[ std::string::String::push ](s: &mut std::string::String, c: char)
    ensures
        final(s)@ == old(s)@.push(c),
;

/// Whether the character is one of the ten ASCII digits.
pub open spec fn is_ascii_digit(c: char) -> bool {
    '0' <= c <= '9'
}

/// Whether the character can stand in an identifier.
pub open spec fn is_identifier_char(c: char) -> bool {
    is_alphanumeric(c) || c == '_'
}

/// Whether the text can stand as an identifier: it is not empty, does not
/// begin with a digit and holds only alphanumerics and underscores.
pub open spec fn can_identify_spec(s: Seq<char>) -> bool {
    &&& s.len() > 0
    &&& !is_ascii_digit(s[0])
    &&& forall|i: int| 0 <= i < s.len() ==> is_identifier_char(#[trigger] s[i])
}

/// What sanitisation makes of one character: a hyphen, a space, a tab and a
/// newline become an underscore, an alphanumeric and an underscore stay, and
/// anything else is dropped.
pub open spec fn identifier_char(c: char) -> Option<char> {
    if c == '-' || c == ' ' || c == '\t' || c == '\n' {
        Some('_')
    } else if is_identifier_char(c) {
        Some(c)
    } else {
        None
    }
}

/// The characters that sanitisation keeps, each as it is kept.
pub open spec fn kept_chars(s: Seq<char>) -> Seq<char>
    decreases s.len(),
{
    if s.len() == 0 {
        Seq::empty()
    } else {
        match identifier_char(s.last()) {
            Some(c) => kept_chars(s.drop_last()).push(c),
            None => kept_chars(s.drop_last()),
        }
    }
}

/// The text with every run of underscores collapsed into one.
pub open spec fn collapse_underscores(s: Seq<char>) -> Seq<char>
    decreases s.len(),
{
    if s.len() == 0 {
        Seq::empty()
    } else if s.len() >= 2 && s.last() == '_' && s[s.len() - 2] == '_' {
        collapse_underscores(s.drop_last())
    } else {
        collapse_underscores(s.drop_last()).push(s.last())
    }
}

/// The identifier made of a text: the characters that are kept, or one
/// underscore when none is, with runs of underscores collapsed.
pub open spec fn sanitized_identifier(s: Seq<char>) -> Seq<char> {
    if kept_chars(s).len() == 0 {
        seq!['_']
    } else {
        collapse_underscores(kept_chars(s))
    }
}

/// The character of a decimal digit.
pub open spec fn digit_char(d: nat) -> char {
    (48 + d) as char
}

/// The decimal digits of a number, without leading zeros.
pub open spec fn decimal(n: nat) -> Seq<char>
    decreases n,
{
    if n < 10 {
        seq![digit_char(n)]
    } else {
        decimal(n / 10).push(digit_char(n % 10))
    }
}

/// The text of a whole number: its decimal digits, after a minus sign when
/// it is negative.
pub open spec fn signed_decimal(i: int) -> Seq<char> {
    if i < 0 {
        seq!['-'].add(decimal((-i) as nat))
    } else {
        decimal(i as nat)
    }
}

/// How one character of a string literal is written: newline, carriage
/// return, tab, double quote and backslash as their two-character escapes,
/// the other printable ASCII characters as they are, and any other
/// character as a backslash and the decimal value of its code point.
pub open spec fn escaped_char(c: char) -> Seq<char> {
    if c == '\n' {
        seq!['\\', 'n']
    } else if c == '\r' {
        seq!['\\', 'r']
    } else if c == '\t' {
        seq!['\\', 't']
    } else if c == '"' {
        seq!['\\', '"']
    } else if c == '\\' {
        seq!['\\', '\\']
    } else if ' ' <= c <= '~' {
        seq![c]
    } else {
        seq!['\\'].add(decimal(c as u32 as nat))
    }
}

/// How the characters of a string literal are written, one after the other.
pub open spec fn escaped(s: Seq<char>) -> Seq<char>
    decreases s.len(),
{
    if s.len() == 0 {
        Seq::empty()
    } else {
        escaped(s.drop_last()).add(escaped_char(s.last()))
    }
}

/// Whether the first character that sanitisation keeps is an ASCII digit.
pub open spec fn leads_with_digit(s: Seq<char>) -> bool {
    kept_chars(s).len() > 0 && is_ascii_digit(kept_chars(s)[0])
}

/// Whether the text holds only characters of identifiers and no two
/// underscores in a row.
pub open spec fn is_clean(s: Seq<char>) -> bool {
    &&& forall|i: int| 0 <= i < s.len() ==> is_identifier_char(#[trigger] s[i])
    &&& forall|i: int| 0 <= i < s.len() - 1 ==> !(#[trigger] s[i] == '_' && s[i + 1] == '_')
}

/// Every character that sanitisation keeps can stand in an identifier.
pub proof fn lemma_kept_chars(s: Seq<char>)
    ensures
        forall|i: int| 0 <= i < kept_chars(s).len() ==> is_identifier_char(#[trigger] kept_chars(s)[i]),
    decreases s.len(),
{
    if s.len() > 0 {
        lemma_kept_chars(s.drop_last());
        let before = kept_chars(s.drop_last());
        assert forall|i: int| 0 <= i < kept_chars(s).len() implies is_identifier_char(
            #[trigger] kept_chars(s)[i],
        ) by {
            if i < before.len() {
                assert(kept_chars(s)[i] == before[i]);
            } else {
                assert(identifier_char(s.last()) == Some(kept_chars(s)[i]));
            }
        }
    }
}

/// Collapsing the runs of underscores keeps the first and the last
/// character, adds no character, and leaves no two underscores in a row.
pub proof fn lemma_collapse(s: Seq<char>)
    requires
        s.len() > 0,
    ensures
        collapse_underscores(s).len() > 0,
        collapse_underscores(s)[0] == s[0],
        collapse_underscores(s).last() == s.last(),
        (forall|i: int| 0 <= i < s.len() ==> is_identifier_char(#[trigger] s[i])) ==> is_clean(
            collapse_underscores(s),
        ),
    decreases s.len(),
{
    if s.len() >= 2 {
        lemma_collapse(s.drop_last());
        let before = collapse_underscores(s.drop_last());
        let all = collapse_underscores(s);
        if forall|i: int| 0 <= i < s.len() ==> is_identifier_char(#[trigger] s[i]) {
            assert forall|i: int| 0 <= i < s.drop_last().len() implies is_identifier_char(
                #[trigger] s.drop_last()[i],
            ) by {
                assert(s.drop_last()[i] == s[i]);
            }
            assert(is_clean(before));
            if !(s.last() == '_' && s[s.len() - 2] == '_') {
                assert(all == before.push(s.last()));
                assert(before.last() == s[s.len() - 2]);
                assert forall|i: int| 0 <= i < all.len() - 1 implies !(#[trigger] all[i] == '_'
                    && all[i + 1] == '_') by {
                    if i < before.len() - 1 {
                        assert(all[i] == before[i]);
                        assert(all[i + 1] == before[i + 1]);
                    }
                }
                assert forall|i: int| 0 <= i < all.len() implies is_identifier_char(
                    #[trigger] all[i],
                ) by {
                    if i < before.len() {
                        assert(all[i] == before[i]);
                    } else {
                        assert(all[i] == s[s.len() - 1]);
                    }
                }
            }
        }
    } else {
        assert(s.drop_last() =~= Seq::<char>::empty());
        assert(collapse_underscores(s.drop_last()) =~= Seq::<char>::empty());
        assert(collapse_underscores(s) =~= seq![s[0]]);
    }
}

/// The identifier made of any text is not empty, holds only alphanumerics
/// and underscores, and holds no two underscores in a row. Unless the first
/// character that is kept is a digit, it does not begin with a digit and can
/// stand as an identifier.
pub proof fn lemma_sanitized_identifier(s: Seq<char>)
    ensures
        sanitized_identifier(s).len() > 0,
        is_clean(sanitized_identifier(s)),
        !leads_with_digit(s) ==> !is_ascii_digit(sanitized_identifier(s)[0]) && can_identify_spec(
            sanitized_identifier(s),
        ),
{
    if kept_chars(s).len() > 0 {
        lemma_kept_chars(s);
        lemma_collapse(kept_chars(s));
    }
}

/// Appends the decimal digits of a number.
pub fn push_decimal(out: &mut String, n: u64)
    ensures
        final(out)@ == old(out)@.add(decimal(n as nat)),
    decreases n,
{
    if n >= 10 {
        push_decimal(out, n / 10);
    }
    let d: u8 = (n % 10) as u8;
    let c: char = (48u8 + d) as char;
    out.push(c);
    proof {
        if n >= 10 {
            assert(final(out)@ =~= old(out)@.add(decimal(n as nat)));
        } else {
            assert(final(out)@ =~= old(out)@.add(decimal(n as nat)));
        }
    }
}

/// Appends the text of a whole number.
pub fn push_signed_decimal(out: &mut String, i: i32)
    ensures
        final(out)@ == old(out)@.add(signed_decimal(i as int)),
{
    if i < 0 {
        out.push('-');
        let magnitude: u64 = (-(i as i64)) as u64;
        push_decimal(out, magnitude);
        assert(final(out)@ =~= old(out)@.add(signed_decimal(i as int)));
    } else {
        push_decimal(out, i as u64);
    }
}

/// Texts that may name things in source.
pub trait IdentifierString {
    /// The characters of the text.
    spec fn characters(&self) -> Seq<char>;

    /// Whether the text can stand as an identifier.
    fn can_identify(&self) -> (r: bool)
        ensures
            r == can_identify_spec(self.characters()),
    ;

    /// The identifier made of the text.
    fn sanitize_identifier(&self) -> (r: String)
        ensures
            r@ == sanitized_identifier(self.characters()),
    ;

    /// The text as it is written inside a string literal.
    fn sanitize_special(&self) -> (r: String)
        ensures
            r@ == escaped(self.characters()),
    ;
}

impl IdentifierString for String {
    open spec fn characters(&self) -> Seq<char> {
        self@
    }

    fn can_identify(&self) -> (r: bool) {
        let mut first = true;
        let mut ok = true;
        for c in it: self.as_str().chars()
            invariant
                it.seq() == self@,
                first == (it.index() == 0),
                ok == ((forall|i: int|
                    0 <= i < it.index() ==> is_identifier_char(#[trigger] self@[i])) && (it.index()
                    > 0 ==> !is_ascii_digit(self@[0]))),
        {
            if first && c >= '0' && c <= '9' {
                ok = false;
            }
            if !(c.is_alphanumeric() || c == '_') {
                ok = false;
            }
            first = false;
        }
        ok && !first
    }

    fn sanitize_identifier(&self) -> (r: String) {
        let mut out = String::new();
        let mut any = false;
        let mut last_underscore = false;
        for c in it: self.as_str().chars()
            invariant
                it.seq() == self@,
                any == (kept_chars(self@.take(it.index())).len() > 0),
                any ==> last_underscore == (kept_chars(self@.take(it.index())).last() == '_'),
                out@ == collapse_underscores(kept_chars(self@.take(it.index()))),
        {
            let ghost before = self@.take(it.index());
            assert(self@.take(it.index() + 1).drop_last() =~= before);
            let kept: Option<char> = if c == '-' || c == ' ' || c == '\t' || c == '\n' {
                Some('_')
            } else if c.is_alphanumeric() || c == '_' {
                Some(c)
            } else {
                None
            };
            match kept {
                Some(k) => {
                    assert(kept_chars(before).push(k).drop_last() =~= kept_chars(before));
                    if !(any && last_underscore && k == '_') {
                        out.push(k);
                    }
                    any = true;
                    last_underscore = k == '_';
                },
                None => {},
            }
        }
        assert(self@.take(self@.len() as int) =~= self@);
        if !any {
            out.push('_');
            assert(out@ =~= seq!['_']);
        }
        out
    }

    fn sanitize_special(&self) -> (r: String) {
        let mut out = String::new();
        for c in it: self.as_str().chars()
            invariant
                it.seq() == self@,
                out@ == escaped(self@.take(it.index())),
        {
            let ghost before = self@.take(it.index());
            let ghost prefix = out@;
            assert(self@.take(it.index() + 1).drop_last() =~= before);
            if c == '\n' {
                out.push('\\');
                out.push('n');
            } else if c == '\r' {
                out.push('\\');
                out.push('r');
            } else if c == '\t' {
                out.push('\\');
                out.push('t');
            } else if c == '"' {
                out.push('\\');
                out.push('"');
            } else if c == '\\' {
                out.push('\\');
                out.push('\\');
            } else if c >= ' ' && c <= '~' {
                out.push(c);
            } else {
                out.push('\\');
                push_decimal(&mut out, c as u32 as u64);
                assert(out@ =~= prefix.add(seq!['\\'].add(decimal(c as u32 as nat))));
            }
            assert(out@ =~= prefix.add(escaped_char(c)));
        }
        assert(self@.take(self@.len() as int) =~= self@);
        out
    }
}

} // verus!
