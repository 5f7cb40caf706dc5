//! The listing: the title line and one line for each word.
//!
//! The first line is `CM` and the title. Each further line holds the address
//! of a word in at least 3 hexadecimal digits, two spaces, and the word in at
//! least 10 hexadecimal digits. Digits above 9 are upper-case letters. The
//! lines are separated by line feeds, and none follows the last line.

use vstd::prelude::*;
use vstd::string::StringExecFns;
use crate::parser::{MachineAddress, MachineCode};

verus! {

/// The character for a digit below 16.
pub open spec fn hex_digit(digit: nat) -> char {
    if digit < 10 {
        ((0x30 + digit) as u8) as char
    } else {
        ((0x37 + digit) as u8) as char
    }
}

/// The number in base 16, padded with zeros in front to `width` digits where
/// it has fewer.
pub open spec fn upper_hex(value: nat, width: nat) -> Seq<char>
    decreases value, width,
{
    if value < 16 && width <= 1 {
        seq![hex_digit(value)]
    } else {
        upper_hex(
            value / 16,
            if width > 0 {
                (width - 1) as nat
            } else {
                0
            },
        ).push(hex_digit(value % 16))
    }
}

/// The line of the listing for one word.
pub open spec fn listing_line(address: MachineAddress, word: MachineCode) -> Seq<char> {
    upper_hex(address as nat, 3) + seq![' ', ' '] + upper_hex(word as nat, 10)
}

/// The lines of the listing for the words, each with a line feed in front.
pub open spec fn listing_lines(words: Seq<(MachineAddress, MachineCode)>) -> Seq<char>
    decreases words.len(),
{
    if words.len() == 0 {
        Seq::empty()
    } else {
        listing_lines(words.drop_last()) + seq!['\n'] + listing_line(
            words.last().0,
            words.last().1,
        )
    }
}

/// The whole listing.
pub open spec fn listing(title: Seq<char>, words: Seq<(MachineAddress, MachineCode)>) -> Seq<char> {
    seq!['C', 'M', ' '] + title + listing_lines(words)
}

fn push_hex(out: &mut String, value: u64, width: usize)
    ensures
        final(out)@ == old(out)@ + upper_hex(value as nat, width as nat),
    decreases value, width,
{
    if value < 16 && width <= 1 {
        let digit = value as u8;
        let c = if digit < 10 {
            (0x30 + digit) as char
        } else {
            (0x37 + digit) as char
        };
        out.push(c);
        assert(out@ =~= old(out)@ + upper_hex(value as nat, width as nat));
    } else {
        let less = if width > 0 {
            width - 1
        } else {
            0
        };
        push_hex(out, value / 16, less);
        let digit = (value % 16) as u8;
        let c = if digit < 10 {
            (0x30 + digit) as char
        } else {
            (0x37 + digit) as char
        };
        out.push(c);
        assert(out@ =~= old(out)@ + upper_hex(value as nat, width as nat));
    }
}

/// Writes the line of the listing for one word.
pub fn format_line(address: MachineAddress, word: MachineCode) -> (line: String)
    ensures
        line@ == listing_line(address, word),
{
    let mut line = String::new();
    push_hex(&mut line, address as u64, 3);
    line.push(' ');
    line.push(' ');
    push_hex(&mut line, word, 10);
    assert(line@ =~= listing_line(address, word));
    line
}

/// Writes the listing of a program: its title and its words, in order.
pub fn emit(title: &str, words: &Vec<(MachineAddress, MachineCode)>) -> (text: String)
    ensures
        text@ == listing(title@, words@),
{
    let mut text = String::new();
    text.push('C');
    text.push('M');
    text.push(' ');
    text.append(title);
    assert(text@ =~= seq!['C', 'M', ' '] + title@);
    let mut index: usize = 0;
    while index < words.len()
        invariant
            index <= words.len(),
            text@ == seq!['C', 'M', ' '] + title@ + listing_lines(words@.take(index as int)),
        decreases words.len() - index,
    {
        let ghost before = text@;
        text.push('\n');
        let line = format_line(words[index].0, words[index].1);
        text.append(line.as_str());
        proof {
            assert(words@.take(index + 1).drop_last() =~= words@.take(index as int));
            assert(words@.take(index + 1).last() == words@[index as int]);
            assert(text@ =~= seq!['C', 'M', ' '] + title@ + listing_lines(
                words@.take(index + 1),
            ));
        }
        index += 1;
    }
    assert(words@.take(index as int) =~= words@);
    text
}

} // verus!
