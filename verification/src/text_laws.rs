//! What holds of texts and paths.

use crate::path::{below, path_text, text_path};
use crate::protocol::{failure_text, paths, reply_text, Reply, ReplyView};
use crate::text::{decimal, digits, optional_text, separated, texts, without_trailing_nul};
use vstd::prelude::*;
use vstd::utf8::{
    decode_utf8, decode_utf8_encode_utf8, encode_utf8, encode_utf8_decode_utf8,
    encode_utf8_valid_utf8, valid_utf8,
};

verus! {

/// Whether these are decimal digits.
pub open spec fn all_digits(text: Seq<char>) -> bool {
    forall|i: int| 0 <= i < text.len() ==> '0' <= #[trigger] text[i] <= '9'
}

/// The number that decimal digits stand for.
pub open spec fn value(text: Seq<char>) -> int
    decreases text.len(),
{
    if text.len() == 0 {
        0
    } else {
        value(text.drop_last()) * 10 + (text.last() as int - '0' as int)
    }
}

proof fn digits_read_back(n: nat)
    ensures
        all_digits(digits(n)),
        value(digits(n)) == n,
        digits(n).len() > 0,
        n > 0 ==> digits(n)[0] != '0',
        n == 0 ==> digits(n).len() == 1,
    decreases n,
{
    reveal_strlit("0123456789");
    let d = (n % 10) as int;
    let last = "0123456789"@.subrange(d, d + 1);
    assert(last.len() == 1);
    assert(last[0] as int == '0' as int + d);
    if n < 10 {
        reveal_with_fuel(value, 2);
        assert(digits(n).drop_last() =~= Seq::empty());
    } else {
        digits_read_back(n / 10);
        assert(digits(n).drop_last() =~= digits(n / 10));
        assert(digits(n)[0] == digits(n / 10)[0]);
    }
}

/// A number that is written in decimal reads back as itself: digits without
/// leading zeros, after a minus sign where it is negative.
pub proof fn decimals_read_back(n: int)
    ensures
        n >= 0 ==> {
            &&& all_digits(decimal(n))
            &&& value(decimal(n)) == n
            &&& decimal(n).len() == 1 || decimal(n)[0] != '0'
        },
        n < 0 ==> {
            &&& decimal(n).len() > 1
            &&& decimal(n)[0] == '-'
            &&& all_digits(decimal(n).skip(1))
            &&& value(decimal(n).skip(1)) == -n
            &&& decimal(n)[1] != '0'
        },
        decimal(n).len() > 0,
{
    reveal_strlit("-");
    if n < 0 {
        digits_read_back((-n) as nat);
        assert(decimal(n).skip(1) =~= digits((-n) as nat));
        assert(decimal(n)[1] == digits((-n) as nat)[0]);
    } else {
        digits_read_back(n as nat);
    }
}

/// Cutting the NULs off the end of a text cuts off those and nothing else.
pub proof fn only_trailing_nuls_are_cut(text: Seq<char>)
    ensures
        without_trailing_nul(text).len() <= text.len(),
        without_trailing_nul(text) == text.take(without_trailing_nul(text).len() as int),
        forall|i: int|
            without_trailing_nul(text).len() <= i < text.len() ==> #[trigger] text[i] == '\0',
        without_trailing_nul(text).len() > 0 ==> without_trailing_nul(text).last() != '\0',
    decreases text.len(),
{
    if text.len() > 0 && text.last() == '\0' {
        only_trailing_nuls_are_cut(text.drop_last());
        let cut = without_trailing_nul(text);
        assert(text.take(cut.len() as int) =~= text.drop_last().take(cut.len() as int));
        assert forall|i: int| cut.len() <= i < text.len() implies #[trigger] text[i] == '\0' by {
            if i < text.len() - 1 {
                assert(text.drop_last()[i] == text[i]);
            }
        }
    } else {
        assert(text.take(text.len() as int) =~= text);
    }
}

/// A joined list is its texts with the separator between each two: two lists
/// that are joined one after the other have one separator between them.
pub proof fn joined_lists_add_up(a: Seq<Seq<char>>, b: Seq<Seq<char>>, separator: Seq<char>)
    ensures
        a.len() == 0 ==> separated(a, separator) == Seq::<char>::empty(),
        a.len() == 1 ==> separated(a, separator) == a[0],
        a.len() > 0 && b.len() > 0 ==> separated(a + b, separator) == separated(a, separator)
            + separator + separated(b, separator),
    decreases b.len(),
{
    if a.len() > 0 && b.len() > 0 {
        assert((a + b).drop_last() =~= a + b.drop_last());
        if b.len() == 1 {
            assert(a + b.drop_last() =~= a);
        } else {
            joined_lists_add_up(a, b.drop_last(), separator);
            assert(separated(a + b, separator) =~= separated(a, separator) + separator + separated(
                b,
                separator,
            ));
        }
    }
}

/// An entry is spelled after its directory and one separator, which a directory
/// may have at its end; an absolute name stands for itself.
pub proof fn entries_are_spelled_after_their_directory(base: Seq<u8>, name: Seq<u8>)
    ensures
        name.len() > 0 && name[0] == 47 ==> below(base, name) == name,
        !(name.len() > 0 && name[0] == 47) ==> {
            &&& base.len() == 0 ==> below(base, name) == name
            &&& base.len() > 0 && base.last() == 47 ==> below(base, name) == base + name
            &&& base.len() > 0 && base.last() != 47 ==> below(base, name) == base + seq![47u8]
                + name
        },
{
}

/// A text as a path is its UTF-8, and reads back; a path that is not UTF-8 reads
/// as the empty text.
pub proof fn paths_are_the_utf8_of_their_texts(text: Seq<char>, path: Seq<u8>)
    ensures
        text_path(text) == encode_utf8(text),
        path_text(text_path(text)) == text,
        valid_utf8(path) ==> path_text(path) == decode_utf8(path) && text_path(path_text(path))
            == path,
        !valid_utf8(path) ==> path_text(path) == Seq::<char>::empty(),
{
    encode_utf8_valid_utf8(text);
    encode_utf8_decode_utf8(text);
    if valid_utf8(path) {
        decode_utf8_encode_utf8(path);
    }
}

/// The characters of a list of strings are those of each of them.
pub proof fn lists_have_the_texts_of_their_strings(
    list: Seq<String>,
    names: Seq<Vec<u8>>,
    text: Option<String>,
)
    ensures
        texts(list).len() == list.len(),
        forall|i: int| 0 <= i < list.len() ==> #[trigger] texts(list)[i] == list[i]@,
        paths(names).len() == names.len(),
        forall|i: int| 0 <= i < names.len() ==> #[trigger] paths(names)[i] == names[i]@,
        text is None <==> optional_text(text) is None,
        text matches Some(text) ==> optional_text(Some(text)) == Some(text@),
{
}

/// A reply tells its own text, and a failure its own reason.
pub proof fn replies_tell_what_they_hold(reply: ReplyView)
    ensures
        reply matches Reply::Text { text } ==> reply_text(reply) == text,
        reply !is Text ==> reply_text(reply) == Seq::<char>::empty(),
        reply matches Reply::Failed { error } ==> failure_text(reply) == error,
        reply !is Failed ==> failure_text(reply) == Seq::<char>::empty(),
{
}

} // verus!
