//! What the lexical rules read where a given text stands in the input.
//!
//! These lemmas carry the laws of [`crate::laws`]: the printers write
//! texts, and the lemmas say what the rules make of them.

use vstd::prelude::*;
use vstd::utf8::is_ascii_chars;
use crate::error::ParseError;
use crate::ident::{lemma_first_keyword, spec_sql_identifier};
use crate::keywords::{
    is_bare_identifier, is_reserved, keyword_bytes, keyword_matches, spec_escape, KEYWORDS,
};
use crate::scan::{
    has_tag, has_tag_no_case, is_digit, is_space, lemma_run_end_is, lit, lower, run_end, word_end,
    ws_end, ByteClass,
};
use crate::text::{decimal, decimal_value, spec_digits};

verus! {

/// A text of two parts stands where the first part stands and the second
/// behind it.
pub proof fn lemma_tag_split(s: Seq<u8>, pos: int, a: Seq<u8>, b: Seq<u8>)
    ensures
        has_tag(s, pos, a + b) == (has_tag(s, pos, a) && has_tag(s, pos + a.len(), b)),
{
    reveal(has_tag);
    let t = a + b;
    if has_tag(s, pos, t) {
        assert forall|j: int| pos <= j < pos + a.len() implies #[trigger] s[j] == a[j - pos] by {
            assert(t[j - pos] == a[j - pos]);
        }
        assert forall|j: int| pos + a.len() <= j < pos + a.len() + b.len() implies #[trigger] s[j]
            == b[j - (pos + a.len())] by {
            assert(t[j - pos] == b[j - pos - a.len()]);
        }
    }
    if has_tag(s, pos, a) && has_tag(s, pos + a.len(), b) {
        assert forall|j: int| pos <= j < pos + t.len() implies #[trigger] s[j] == t[j - pos] by {
            if j < pos + a.len() {
                assert(t[j - pos] == a[j - pos]);
            } else {
                assert(t[j - pos] == b[j - pos - a.len()]);
            }
        }
    }
}

/// The bytes of a word of ASCII characters are its characters.
pub proof fn lemma_lit(t: &str)
    requires
        is_ascii_chars(t@),
    ensures
        lit(t).len() == t@.len(),
        forall|i: int| 0 <= i < t@.len() ==> #[trigger] lit(t)[i] == t@[i] as u8,
{
    vstd::utf8::is_ascii_chars_encode_utf8(t@);
}

/// The bytes of a text stand where the text stands.
pub proof fn lemma_tag_byte(s: Seq<u8>, pos: int, t: Seq<u8>, i: int)
    requires
        has_tag(s, pos, t),
        0 <= i < t.len(),
    ensures
        0 <= pos,
        pos + t.len() <= s.len(),
        s[pos + i] == t[i],
{
    reveal(has_tag);
    assert(s[pos + i] == t[pos + i - pos]);
}

/// A text stands inside the input.
pub proof fn lemma_tag_bounds(s: Seq<u8>, pos: int, t: Seq<u8>)
    requires
        has_tag(s, pos, t),
    ensures
        0 <= pos,
        pos + t.len() <= s.len(),
{
    reveal(has_tag);
}

/// The text that stands at a place is the part of the input there.
pub proof fn lemma_tag_is_subrange(s: Seq<u8>, pos: int, t: Seq<u8>)
    requires
        has_tag(s, pos, t),
    ensures
        0 <= pos,
        pos + t.len() <= s.len(),
        s.subrange(pos, pos + t.len()) == t,
{
    reveal(has_tag);
    assert(s.subrange(pos, pos + t.len()) =~= t);
}

/// Each part of a text stands where the text stands.
pub proof fn lemma_tag_part(s: Seq<u8>, pos: int, t: Seq<u8>, from: int, part: Seq<u8>)
    requires
        has_tag(s, pos, t),
        0 <= from,
        from + part.len() <= t.len(),
        forall|i: int| 0 <= i < part.len() ==> #[trigger] part[i] == t[from + i],
    ensures
        has_tag(s, pos + from, part),
{
    reveal(has_tag);
    assert forall|j: int| pos + from <= j < pos + from + part.len() implies #[trigger] s[j]
        == part[j - (pos + from)] by {
        assert(s[j] == t[j - pos]);
    }
}

/// All bytes of a text that stands in the input have what all its bytes have.
pub proof fn lemma_tag_class(s: Seq<u8>, pos: int, t: Seq<u8>, class: ByteClass)
    requires
        has_tag(s, pos, t),
        forall|i: int| 0 <= i < t.len() ==> class.has(#[trigger] t[i]),
    ensures
        forall|j: int| pos <= j < pos + t.len() ==> class.has(#[trigger] s[j]),
{
    reveal(has_tag);
    assert forall|j: int| pos <= j < pos + t.len() implies class.has(#[trigger] s[j]) by {
        assert(s[j] == t[j - pos]);
    }
}

/// A word is read where it stands as it is written, in whatever case, be it
/// the beginning of a longer text.
pub proof fn lemma_word(s: Seq<u8>, pos: int, written: Seq<u8>, word: Seq<u8>)
    requires
        has_tag(s, pos, written),
        word.len() <= written.len(),
        forall|i: int| 0 <= i < word.len() ==> lower(#[trigger] written[i]) == lower(word[i]),
    ensures
        word_end(s, pos, word) == Some(pos + word.len()),
        has_tag_no_case(s, pos, word),
{
    reveal(has_tag);
    reveal(has_tag_no_case);
    assert forall|j: int| pos <= j < pos + word.len() implies lower(#[trigger] s[j]) == lower(
        word[j - pos],
    ) by {
        assert(s[j] == written[j - pos]);
    }
}

/// A word is not read where one of its bytes does not stand.
pub proof fn lemma_not_word(s: Seq<u8>, pos: int, word: Seq<u8>, i: int)
    requires
        0 <= i < word.len(),
        0 <= pos,
        pos + i >= s.len() || lower(s[pos + i]) != lower(word[i]),
    ensures
        word_end(s, pos, word) is None,
        !has_tag_no_case(s, pos, word),
{
    reveal(has_tag_no_case);
    if has_tag_no_case(s, pos, word) {
        assert(lower(s[pos + i]) == lower(word[pos + i - pos]));
    }
}

/// A word is not read where a text stands that differs from it in a byte.
pub proof fn lemma_tag_not_word(s: Seq<u8>, pos: int, t: Seq<u8>, word: Seq<u8>, i: int)
    requires
        has_tag(s, pos, t),
        0 <= i < t.len(),
        i < word.len(),
        lower(t[i]) != lower(word[i]),
    ensures
        word_end(s, pos, word) is None,
        !has_tag_no_case(s, pos, word),
{
    lemma_tag_byte(s, pos, t, i);
    lemma_not_word(s, pos, word, i);
}

/// A text is not read where a text stands that differs from it in a byte.
pub proof fn lemma_tag_not_tag(s: Seq<u8>, pos: int, t: Seq<u8>, word: Seq<u8>, i: int)
    requires
        has_tag(s, pos, t),
        0 <= i < t.len(),
        i < word.len(),
        t[i] != word[i],
    ensures
        !has_tag(s, pos, word),
{
    lemma_tag_byte(s, pos, t, i);
    lemma_not_tag(s, pos, word, i);
}

/// A text is not read where one of its bytes does not stand.
pub proof fn lemma_not_tag(s: Seq<u8>, pos: int, word: Seq<u8>, i: int)
    requires
        0 <= i < word.len(),
        0 <= pos,
        pos + i >= s.len() || s[pos + i] != word[i],
    ensures
        !has_tag(s, pos, word),
{
    reveal(has_tag);
    if has_tag(s, pos, word) {
        assert(s[pos + i] == word[pos + i - pos]);
    }
}

/// No white space is skipped where none stands.
pub proof fn lemma_ws_stop(s: Seq<u8>, pos: int)
    requires
        0 <= pos <= s.len(),
        pos == s.len() || !is_space(s[pos]),
    ensures
        ws_end(s, pos) == pos,
{
}

/// Inside a run of white space, the run ends where it ends.
pub proof fn lemma_ws_inside(s: Seq<u8>, pos: int, mid: int)
    requires
        0 <= pos <= mid <= ws_end(s, pos),
        pos <= s.len(),
    ensures
        ws_end(s, mid) == ws_end(s, pos),
    decreases mid - pos,
{
    if pos < mid {
        crate::scan::lemma_run_end_bounds(s, pos, ByteClass::Space);
        if pos < s.len() && is_space(s[pos]) {
            lemma_ws_inside(s, pos + 1, mid);
        }
    }
}

/// The decimal text of a number is made of digits, and is not empty.
pub proof fn lemma_decimal_digits(n: nat)
    ensures
        decimal(n).len() >= 1,
        forall|i: int| 0 <= i < decimal(n).len() ==> is_digit(#[trigger] decimal(n)[i]),
    decreases n,
{
    if n >= 10 {
        lemma_decimal_digits(n / 10);
        let d = decimal(n / 10);
        assert forall|i: int| 0 <= i < decimal(n).len() implies is_digit(
            #[trigger] decimal(n)[i],
        ) by {
            if i < d.len() {
                assert(decimal(n)[i] == d[i]);
            }
        }
    }
}

/// The digits of the decimal text of a number spell the number.
pub proof fn lemma_decimal_value(s: Seq<u8>, pos: int, n: nat)
    requires
        has_tag(s, pos, decimal(n)),
    ensures
        decimal_value(s, pos, pos + decimal(n).len()) == n,
    decreases n,
{
    reveal(has_tag);
    lemma_decimal_digits(n);
    if n >= 10 {
        let d = decimal(n / 10);
        let last = seq![('0' as u8 + n % 10) as u8];
        assert(decimal(n) =~= d + last);
        lemma_tag_split(s, pos, d, last);
        lemma_decimal_value(s, pos, n / 10);
        let end = pos + decimal(n).len();
        assert(s[end - 1] == last[end - 1 - (pos + d.len())]);
    } else {
        assert(s[pos] == decimal(n)[pos - pos]);
        assert(decimal_value(s, pos, pos) == 0);
    }
}

/// Where the decimal text of a number that fits in 64 bits stands before a
/// byte that is no digit, the number is read.
pub proof fn lemma_digits_read(s: Seq<u8>, pos: int, n: nat)
    requires
        has_tag(s, pos, decimal(n)),
        n <= u64::MAX,
        pos + decimal(n).len() == s.len() || !is_digit(s[pos + decimal(n).len()]),
    ensures
        run_end(s, pos, ByteClass::Digit) == pos + decimal(n).len(),
        spec_digits(s, pos) == Ok::<(u64, int), ParseError>((n as u64, pos + decimal(n).len())),
{
    reveal(has_tag);
    lemma_decimal_digits(n);
    lemma_decimal_value(s, pos, n);
    let end = pos + decimal(n).len();
    assert forall|j: int| pos <= j < end implies ByteClass::Digit.has(#[trigger] s[j]) by {
        assert(s[j] == decimal(n)[j - pos]);
    }
    lemma_run_end_is(s, pos, end, ByteClass::Digit);
}

/// The reserved words are made of two or more upper-case letters.
pub proof fn lemma_keyword_letters(k: int)
    requires
        0 <= k < KEYWORDS,
    ensures
        keyword_bytes(k).len() >= 2,
        forall|i: int|
            0 <= i < keyword_bytes(k).len() ==> 'A' as u8 <= #[trigger] keyword_bytes(k)[i]
                <= 'Z' as u8,
{
    if k == 0 {
        reveal_strlit("AND");
        lemma_lit("AND");
    }
    if k == 1 {
        reveal_strlit("AS");
        lemma_lit("AS");
    }
    if k == 2 {
        reveal_strlit("ASC");
        lemma_lit("ASC");
    }
    if k == 3 {
        reveal_strlit("BETWEEN");
        lemma_lit("BETWEEN");
    }
    if k == 4 {
        reveal_strlit("BY");
        lemma_lit("BY");
    }
    if k == 5 {
        reveal_strlit("COLUMN");
        lemma_lit("COLUMN");
    }
    if k == 6 {
        reveal_strlit("CREATE");
        lemma_lit("CREATE");
    }
    if k == 7 {
        reveal_strlit("DATABASE");
        lemma_lit("DATABASE");
    }
    if k == 8 {
        reveal_strlit("DEFAULT");
        lemma_lit("DEFAULT");
    }
    if k == 9 {
        reveal_strlit("DESC");
        lemma_lit("DESC");
    }
    if k == 10 {
        reveal_strlit("DETACH");
        lemma_lit("DETACH");
    }
    if k == 11 {
        reveal_strlit("DISTINCT");
        lemma_lit("DISTINCT");
    }
    if k == 12 {
        reveal_strlit("DROP");
        lemma_lit("DROP");
    }
    if k == 13 {
        reveal_strlit("EXISTS");
        lemma_lit("EXISTS");
    }
    if k == 14 {
        reveal_strlit("FROM");
        lemma_lit("FROM");
    }
    if k == 15 {
        reveal_strlit("GROUP");
        lemma_lit("GROUP");
    }
    if k == 16 {
        reveal_strlit("HAVING");
        lemma_lit("HAVING");
    }
    if k == 17 {
        reveal_strlit("IGNORE");
        lemma_lit("IGNORE");
    }
    if k == 18 {
        reveal_strlit("IN");
        lemma_lit("IN");
    }
    if k == 19 {
        reveal_strlit("INDEX");
        lemma_lit("INDEX");
    }
    if k == 20 {
        reveal_strlit("INSERT");
        lemma_lit("INSERT");
    }
    if k == 21 {
        reveal_strlit("INTO");
        lemma_lit("INTO");
    }
    if k == 22 {
        reveal_strlit("ORDER");
        lemma_lit("ORDER");
    }
    if k == 23 {
        reveal_strlit("JOIN");
        lemma_lit("JOIN");
    }
    if k == 24 {
        reveal_strlit("LEFT");
        lemma_lit("LEFT");
    }
    if k == 25 {
        reveal_strlit("LIKE");
        lemma_lit("LIKE");
    }
    if k == 26 {
        reveal_strlit("LIMIT");
        lemma_lit("LIMIT");
    }
    if k == 27 {
        reveal_strlit("NOT");
        lemma_lit("NOT");
    }
    if k == 28 {
        reveal_strlit("NULL");
        lemma_lit("NULL");
    }
    if k == 29 {
        reveal_strlit("OFFSET");
        lemma_lit("OFFSET");
    }
    if k == 30 {
        reveal_strlit("ON");
        lemma_lit("ON");
    }
    if k == 31 {
        reveal_strlit("OR");
        lemma_lit("OR");
    }
    if k == 32 {
        reveal_strlit("PRIMARY");
        lemma_lit("PRIMARY");
    }
    if k == 33 {
        reveal_strlit("SELECT");
        lemma_lit("SELECT");
    }
    if k == 34 {
        reveal_strlit("SET");
        lemma_lit("SET");
    }
    if k == 35 {
        reveal_strlit("TABLE");
        lemma_lit("TABLE");
    }
    if k == 36 {
        reveal_strlit("TEMPORARY");
        lemma_lit("TEMPORARY");
    }
    if k == 37 {
        reveal_strlit("TO");
        lemma_lit("TO");
    }
    if k == 38 {
        reveal_strlit("UNIQUE");
        lemma_lit("UNIQUE");
    }
    if k == 39 {
        reveal_strlit("VALUES");
        lemma_lit("VALUES");
    }
    if k == 40 {
        reveal_strlit("VIEW");
        lemma_lit("VIEW");
    }
    if k == 41 {
        reveal_strlit("WHERE");
        lemma_lit("WHERE");
    }
}

/// No reserved word begins where a bare identifier stands that ends before
/// a byte that cannot stand in one, and the identifier is read.
pub proof fn lemma_bare_identifier_read(s: Seq<u8>, pos: int, name: Seq<u8>)
    requires
        is_bare_identifier(name),
        has_tag(s, pos, name),
        pos + name.len() == s.len() || !ByteClass::Identifier.has(s[pos + name.len()]),
    ensures
        spec_sql_identifier(s, pos) == Ok::<((int, int), int), ParseError>(
            ((pos, pos + name.len()), pos + name.len()),
        ),
{
    reveal(has_tag);
    reveal(has_tag_no_case);
    let n = name.len() as int;
    assert forall|j: int| pos <= j < pos + n implies ByteClass::Identifier.has(#[trigger] s[j]) by {
        assert(s[j] == name[j - pos]);
    }
    lemma_run_end_is(s, pos, pos + n, ByteClass::Identifier);
    lemma_first_keyword(s, pos, 0);
    assert forall|k: int| 0 <= k < KEYWORDS implies !keyword_matches(s, pos, k) by {
        lemma_keyword_letters(k);
        let w = keyword_bytes(k);
        let m = w.len() as int;
        if keyword_matches(s, pos, k) {
            if m < n {
                assert(s[pos + m] == name[pos + m - pos]);
                assert(ByteClass::Identifier.has(name[m]));
            } else if m == n {
                assert forall|j: int| 0 <= j < 0 + w.len() implies lower(#[trigger] name[j])
                    == lower(w[j - 0]) by {
                    assert(s[pos + j] == name[pos + j - pos]);
                    assert(lower(s[pos + j]) == lower(w[pos + j - pos]));
                }
                assert(has_tag_no_case(name, 0, w));
                assert(is_reserved(name));
            } else {
                assert(lower(s[pos + n]) == lower(w[pos + n - pos]));
                assert('A' as u8 <= w[n] <= 'Z' as u8);
            }
        }
    }
}

/// Where a name that holds no backtick stands between backticks, the name is
/// read.
pub proof fn lemma_backticked_read(s: Seq<u8>, pos: int, name: Seq<u8>)
    requires
        name.len() > 0,
        forall|i: int| 0 <= i < name.len() ==> #[trigger] name[i] != '`' as u8,
        has_tag(s, pos, lit("`") + name + lit("`")),
    ensures
        spec_sql_identifier(s, pos) == Ok::<((int, int), int), ParseError>(
            ((pos + 1, pos + 1 + name.len()), pos + 2 + name.len()),
        ),
{
    reveal(has_tag);
    reveal_strlit("`");
    lemma_lit("`");
    let n = name.len() as int;
    lemma_tag_split(s, pos, lit("`") + name, lit("`"));
    lemma_tag_split(s, pos, lit("`"), name);
    assert(s[pos] == lit("`")[pos - pos]);
    assert(s[pos + 1 + n] == lit("`")[pos + 1 + n - (pos + (lit("`") + name).len())]);
    assert forall|j: int| pos + 1 <= j < pos + 1 + n implies ByteClass::Except('`' as u8).has(
        #[trigger] s[j],
    ) by {
        assert(s[j] == name[j - (pos + 1)]);
    }
    lemma_run_end_is(s, pos + 1, pos + 1 + n, ByteClass::Except('`' as u8));
    assert(run_end(s, pos, ByteClass::Identifier) == pos);
}

/// Where a name that holds no backtick stands as the printers write it,
/// before a byte that cannot stand in a bare identifier, the name is read.
pub proof fn lemma_escaped_read(s: Seq<u8>, pos: int, name: Seq<u8>)
    requires
        name.len() > 0,
        forall|i: int| 0 <= i < name.len() ==> #[trigger] name[i] != '`' as u8,
        has_tag(s, pos, spec_escape(name)),
        pos + spec_escape(name).len() == s.len() || !ByteClass::Identifier.has(
            s[pos + spec_escape(name).len()],
        ),
    ensures
        spec_sql_identifier(s, pos) is Ok,
        spec_sql_identifier(s, pos)->Ok_0.1 == pos + spec_escape(name).len(),
        s.subrange(
            spec_sql_identifier(s, pos)->Ok_0.0.0,
            spec_sql_identifier(s, pos)->Ok_0.0.1,
        ) == name,
        0 <= spec_sql_identifier(s, pos)->Ok_0.0.0,
{
    reveal(has_tag);
    if is_bare_identifier(name) {
        lemma_bare_identifier_read(s, pos, name);
        assert(s.subrange(pos, pos + name.len()) =~= name);
    } else {
        reveal_strlit("`");
        lemma_lit("`");
        lemma_backticked_read(s, pos, name);
        lemma_tag_split(s, pos, lit("`") + name, lit("`"));
        lemma_tag_split(s, pos, lit("`"), name);
        assert(s.subrange(pos + 1, pos + 1 + name.len()) =~= name);
    }
}

} // verus!
