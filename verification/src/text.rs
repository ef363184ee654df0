//! Texts: numbers in base ten, lines, and lists with a separator.

use vstd::prelude::*;

verus! {

/// The ten digits.
pub open spec fn digit_char(d: nat) -> char {
    seq!['0', '1', '2', '3', '4', '5', '6', '7', '8', '9'][d as int]
}

/// The digits of `n` in base ten, without leading zeros.
pub open spec fn decimal_digits(n: nat) -> Seq<char>
    decreases n,
{
    if n < 10 {
        seq![digit_char(n)]
    } else {
        decimal_digits(n / 10).push(digit_char(n % 10))
    }
}

/// `n` written in base ten, with a minus sign if it is negative.
pub open spec fn decimal(n: int) -> Seq<char> {
    if n < 0 {
        seq!['-'] + decimal_digits((-n) as nat)
    } else {
        decimal_digits(n as nat)
    }
}

/// The text with a line break behind it.
pub open spec fn line(text: Seq<char>) -> Seq<char> {
    text.push('\n')
}

/// The text in bold, with a line break behind it.
pub open spec fn bold_line(text: Seq<char>) -> Seq<char> {
    seq!['*', '*'] + text + seq!['*', '*', '\n']
}

/// The texts one after the other, with `separator` between each two.
pub open spec fn joined(texts: Seq<Seq<char>>, separator: Seq<char>) -> Seq<char>
    decreases texts.len(),
{
    if texts.len() == 0 {
        Seq::empty()
    } else if texts.len() == 1 {
        texts[0]
    } else {
        joined(texts.drop_last(), separator) + separator + texts.last()
    }
}

/// The text `n` times in a row.
pub open spec fn repeated(text: Seq<char>, n: nat) -> Seq<char>
    decreases n,
{
    if n == 0 {
        Seq::empty()
    } else {
        repeated(text, (n - 1) as nat) + text
    }
}

/// What the strings hold, in the same order.
pub open spec fn texts_of(strings: Seq<String>) -> Seq<Seq<char>> {
    Seq::new(strings.len(), |i: int| strings[i]@)
}

/// The digit `d` as a text.
fn digit_str(d: u64) -> (r: &'static str)
    requires
        d < 10,
    ensures
        r@ == seq![digit_char(d as nat)],
{
    proof {
        reveal_strlit("0");
        reveal_strlit("1");
        reveal_strlit("2");
        reveal_strlit("3");
        reveal_strlit("4");
        reveal_strlit("5");
        reveal_strlit("6");
        reveal_strlit("7");
        reveal_strlit("8");
        reveal_strlit("9");
    }
    match d {
        0 => "0",
        1 => "1",
        2 => "2",
        3 => "3",
        4 => "4",
        5 => "5",
        6 => "6",
        7 => "7",
        8 => "8",
        _ => "9",
    }
}

/// Writes the digits of `n` behind `out`.
fn append_digits(out: &mut String, n: u64)
    ensures
        final(out)@ == old(out)@ + decimal_digits(n as nat),
    decreases n,
{
    if n >= 10 {
        append_digits(out, n / 10);
    }
    out.append(digit_str(n % 10));
}

/// Writes `n` in base ten behind `out`.
pub fn append_decimal(out: &mut String, n: i64)
    ensures
        final(out)@ == old(out)@ + decimal(n as int),
{
    if n < 0 {
        proof {
            reveal_strlit("-");
        }
        out.append("-");
        let magnitude: u64 = if n == i64::MIN {
            0x8000_0000_0000_0000
        } else {
            (-n) as u64
        };
        append_digits(out, magnitude);
    } else {
        append_digits(out, n as u64);
    }
}

/// Writes the text and a line break behind `out`.
pub fn append_line(out: &mut String, text: &str)
    ensures
        final(out)@ == old(out)@ + line(text@),
{
    proof {
        reveal_strlit("\n");
    }
    out.append(text);
    out.append("\n");
}

/// Writes the text in bold and a line break behind `out`.
pub fn append_bold_line(out: &mut String, text: &str)
    ensures
        final(out)@ == old(out)@ + bold_line(text@),
{
    proof {
        reveal_strlit("**");
        reveal_strlit("**\n");
    }
    out.append("**");
    out.append(text);
    out.append("**\n");
}

/// Writes the texts behind `out`, with `separator` between each two.
pub fn append_joined(out: &mut String, texts: &Vec<String>, separator: &str)
    ensures
        final(out)@ == old(out)@ + joined(texts_of(texts@), separator@),
{
    let ghost all = texts_of(texts@);
    let mut i: usize = 0;
    while i < texts.len()
        invariant
            i <= texts.len(),
            all == texts_of(texts@),
            out@ == old(out)@ + joined(all.take(i as int), separator@),
        decreases texts.len() - i,
    {
        proof {
            assert(all.take(i + 1).drop_last() =~= all.take(i as int));
        }
        if i > 0 {
            out.append(separator);
        }
        out.append(texts[i].as_str());
        i += 1;
    }
    proof {
        all.lemma_take_len();
    }
}

/// Writes the text `n` times behind `out`.
pub fn append_repeated(out: &mut String, text: &str, n: usize)
    ensures
        final(out)@ == old(out)@ + repeated(text@, n as nat),
{
    let mut i: usize = 0;
    while i < n
        invariant
            i <= n,
            out@ == old(out)@ + repeated(text@, i as nat),
        decreases n - i,
    {
        out.append(text);
        i += 1;
    }
}

} // verus!
