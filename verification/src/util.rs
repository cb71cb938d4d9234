//! Turning icon names into Kotlin file names.
use vstd::prelude::*;

use crate::text::{all_ascii, chars_of, extend_chars, extend_range, is_ascii_char, string_of};

verus! {

/// What `char::to_uppercase` yields for a character (Unicode uppercase
/// mapping, one or more characters).
pub uninterp spec fn uppercase_of(c: char) -> Seq<char>;

/// Uppercase of an ASCII character: `a`–`z` become `A`–`Z`, the rest stay.
pub open spec fn ascii_upper(c: char) -> char {
    if 'a' <= c && c <= 'z' {
        ((c as u32) - 32) as char
    } else {
        c
    }
}

/// Calls `char::to_uppercase` and collects the characters it yields. The
/// result is the named value `uppercase_of(c)`, of at least one character;
/// for an ASCII character it is that character's ASCII uppercase (the
/// one-to-one UnicodeData mapping for `a`–`z`, no mapping for the other ASCII
/// characters, which are then yielded unchanged). What it is for other
/// characters is left unsaid.
#[verifier::external_body]
fn char_to_uppercase(c: char) -> (r: String)
    ensures
        r@ == uppercase_of(c),
        r@.len() >= 1,
        is_ascii_char(c) ==> r@ == seq![ascii_upper(c)],
{
    c.to_uppercase().collect::<String>()
}

/// `s` with its first character uppercased.
pub open spec fn capitalize_spec(s: Seq<char>) -> Seq<char> {
    if s.len() == 0 {
        seq![]
    } else {
        uppercase_of(s[0]) + s.drop_first()
    }
}

/// `s` with its first character uppercased, for an ASCII `s`.
pub open spec fn ascii_capitalize(s: Seq<char>) -> Seq<char> {
    if s.len() == 0 {
        seq![]
    } else {
        seq![ascii_upper(s[0])] + s.drop_first()
    }
}

/// Capitalize the first letter of a string (for Kotlin class names).
pub fn capitalize(s: &str) -> (r: String)
    ensures
        r@ == capitalize_spec(s@),
        all_ascii(s@) ==> r@ == ascii_capitalize(s@),
        all_ascii(s@) ==> r@.len() == s@.len(),
        all_ascii(s@) && no_separator(s@) ==> no_separator(r@),
{
    let v = chars_of(s);
    if v.len() == 0 {
        return String::new();
    }
    let up = char_to_uppercase(v[0]);
    let mut out = chars_of(up.as_str());
    extend_range(&mut out, v.as_slice(), 1, v.len());
    assert(v@.subrange(1, v@.len() as int) == v@.drop_first());
    proof {
        if all_ascii(s@) {
            assert(is_ascii_char(v@[0]));
            assert(out@ =~= ascii_capitalize(s@));
            if no_separator(s@) {
                assert forall|k: int| 0 <= k < out@.len() implies !is_name_separator(
                    #[trigger] out@[k],
                ) by {
                    if k > 0 {
                        assert(out@[k] == v@[k]);
                    } else {
                        assert(!is_name_separator(v@[0]));
                    }
                }
            }
        }
    }
    string_of(out.as_slice())
}

/// Separators between the words of an icon name.
pub open spec fn is_name_separator(c: char) -> bool {
    c == '-' || c == '_'
}

/// No character is a separator.
pub open spec fn no_separator(s: Seq<char>) -> bool {
    forall|k: int| 0 <= k < s.len() ==> !is_name_separator(#[trigger] s[k])
}

/// Number of separators in `s`.
pub open spec fn separator_count(s: Seq<char>) -> nat
    decreases s.len(),
{
    if s.len() == 0 {
        0
    } else {
        separator_count(s.drop_last()) + if is_name_separator(s.last()) {
            1nat
        } else {
            0nat
        }
    }
}

/// The parts of `s` between separators, from position `i` on, the current
/// part having begun at `start` (`str::split` on `'-'` and `'_'`).
pub open spec fn name_parts_from(s: Seq<char>, start: int, i: int) -> Seq<Seq<char>>
    decreases s.len() - i,
{
    if i >= s.len() {
        seq![s.subrange(start, s.len() as int)]
    } else if is_name_separator(s[i]) {
        seq![s.subrange(start, i)] + name_parts_from(s, i + 1, i + 1)
    } else {
        name_parts_from(s, start, i + 1)
    }
}

/// The parts of an icon name between `'-'` and `'_'` separators.
pub open spec fn name_parts(s: Seq<char>) -> Seq<Seq<char>> {
    name_parts_from(s, 0, 0)
}

/// The parts, each capitalized, concatenated.
pub open spec fn concat_capitalized(parts: Seq<Seq<char>>) -> Seq<char>
    decreases parts.len(),
{
    if parts.len() == 0 {
        seq![]
    } else {
        capitalize_spec(parts[0]) + concat_capitalized(parts.drop_first())
    }
}

/// The parts, each capitalized as ASCII text, concatenated.
pub open spec fn concat_ascii_capitalized(parts: Seq<Seq<char>>) -> Seq<char>
    decreases parts.len(),
{
    if parts.len() == 0 {
        seq![]
    } else {
        ascii_capitalize(parts[0]) + concat_ascii_capitalized(parts.drop_first())
    }
}

/// The Kotlin file name of an icon name.
pub open spec fn icon_filename_spec(icon: Seq<char>) -> Seq<char> {
    concat_capitalized(name_parts(icon))
}

proof fn lemma_concat_cons(part: Seq<char>, rest: Seq<Seq<char>>)
    ensures
        concat_capitalized(seq![part] + rest) == capitalize_spec(part) + concat_capitalized(rest),
        concat_ascii_capitalized(seq![part] + rest) == ascii_capitalize(part)
            + concat_ascii_capitalized(rest),
{
    assert((seq![part] + rest).drop_first() =~= rest);
}

/// Convert an icon name to the Kotlin file name (PascalCase). For an ASCII
/// name the result holds no separator and is as long as the name without its
/// separators.
pub fn icon_to_filename(icon: &str) -> (r: String)
    ensures
        r@ == icon_filename_spec(icon@),
        all_ascii(icon@) ==> r@ == concat_ascii_capitalized(name_parts(icon@)),
        all_ascii(icon@) ==> no_separator(r@) && r@.len() + separator_count(icon@) == icon@.len(),
{
    let v = chars_of(icon);
    let mut out: Vec<char> = Vec::new();
    let mut cur: Vec<char> = Vec::new();
    let mut start: usize = 0;
    let mut i: usize = 0;
    while i < v.len()
        invariant
            start <= i <= v@.len(),
            cur@ == v@.subrange(start as int, i as int),
            out@ + concat_capitalized(name_parts_from(v@, start as int, i as int))
                == icon_filename_spec(icon@),
            v@ == icon@,
            forall|k: int| start <= k < i ==> !is_name_separator(#[trigger] v@[k]),
            separator_count(v@.take(i as int)) == separator_count(v@.take(start as int)),
            all_ascii(icon@) ==> no_separator(out@) && out@.len() + separator_count(
                v@.take(start as int),
            ) == start,
            all_ascii(icon@) ==> out@ + concat_ascii_capitalized(
                name_parts_from(v@, start as int, i as int),
            ) == concat_ascii_capitalized(name_parts(icon@)),
        decreases v.len() - i,
    {
        let ghost next = v@.take(i + 1);
        assert(next.drop_last() == v@.take(i as int));
        assert(next.last() == v@[i as int]);
        if v[i] == '-' || v[i] == '_' {
            let part = string_of(cur.as_slice());
            proof {
                if all_ascii(icon@) {
                    assert(all_ascii(cur@)) by {
                        assert forall|k: int| 0 <= k < cur@.len() implies is_ascii_char(
                            #[trigger] cur@[k],
                        ) by {
                            assert(cur@[k] == v@[start + k]);
                        }
                    }
                }
                assert(no_separator(cur@)) by {
                    assert forall|k: int| 0 <= k < cur@.len() implies !is_name_separator(
                        #[trigger] cur@[k],
                    ) by {
                        assert(cur@[k] == v@[start + k]);
                    }
                }
            }
            let cap = capitalize(part.as_str());
            let cap_chars = chars_of(cap.as_str());
            let ghost before = out@;
            let ghost rest = name_parts_from(v@, i + 1, i + 1);
            proof {
                lemma_concat_cons(cur@, rest);
            }
            extend_chars(&mut out, cap_chars.as_slice());
            assert(out@ + concat_capitalized(rest) == before + (capitalize_spec(cur@)
                + concat_capitalized(rest)));
            proof {
                if all_ascii(icon@) {
                    assert(out@ == before + cap_chars@);
                    assert(out@ + concat_ascii_capitalized(rest) == before + (ascii_capitalize(
                        cur@,
                    ) + concat_ascii_capitalized(rest)));
                    assert forall|k: int| 0 <= k < out@.len() implies !is_name_separator(
                        #[trigger] out@[k],
                    ) by {
                        if k >= before.len() {
                            assert(out@[k] == cap_chars@[k - before.len()]);
                        } else {
                            assert(out@[k] == before[k]);
                        }
                    }
                }
            }
            cur = Vec::new();
            start = i + 1;
        } else {
            cur.push(v[i]);
            assert(v@.subrange(start as int, i + 1) == v@.subrange(start as int, i as int).push(
                v@[i as int],
            ));
        }
        i = i + 1;
    }
    let part = string_of(cur.as_slice());
    proof {
        if all_ascii(icon@) {
            assert(all_ascii(cur@)) by {
                assert forall|k: int| 0 <= k < cur@.len() implies is_ascii_char(#[trigger] cur@[k]) by {
                    assert(cur@[k] == v@[start + k]);
                }
            }
        }
        assert(no_separator(cur@)) by {
            assert forall|k: int| 0 <= k < cur@.len() implies !is_name_separator(
                #[trigger] cur@[k],
            ) by {
                assert(cur@[k] == v@[start + k]);
            }
        }
    }
    let cap = capitalize(part.as_str());
    let cap_chars = chars_of(cap.as_str());
    let ghost before = out@;
    proof {
        lemma_concat_cons(cur@, seq![]);
        assert(seq![cur@] + Seq::<Seq<char>>::empty() =~= seq![cur@]);
        assert(concat_capitalized(Seq::<Seq<char>>::empty()) =~= Seq::<char>::empty());
        assert(concat_ascii_capitalized(Seq::<Seq<char>>::empty()) =~= Seq::<char>::empty());
    }
    extend_chars(&mut out, cap_chars.as_slice());
    assert(capitalize_spec(cur@) + Seq::<char>::empty() =~= capitalize_spec(cur@));
    proof {
        assert(v@.take(v@.len() as int) == v@);
        if all_ascii(icon@) {
            assert(out@ == before + cap_chars@);
            assert(ascii_capitalize(cur@) + Seq::<char>::empty() =~= ascii_capitalize(cur@));
            assert forall|k: int| 0 <= k < out@.len() implies !is_name_separator(
                #[trigger] out@[k],
            ) by {
                if k >= before.len() {
                    assert(out@[k] == cap_chars@[k - before.len()]);
                } else {
                    assert(out@[k] == before[k]);
                }
            }
        }
    }
    string_of(out.as_slice())
}

} // verus!
