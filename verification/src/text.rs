//! Text handling: building strings, log clean-up, sizes and searches.
use crate::binary64::{round_half_even, to_nearest};
use vstd::prelude::*;

verus! {

/// `String::push` appends the character to the end of the string and changes nothing else.
pub assume_specification[ String::push ](text: &mut String, ch: char)
    ensures
        final(text)@ == old(text)@.push(ch),
;

/// The characters of a string, in order.
pub fn characters(text: &str) -> (chars: Vec<char>)
    ensures
        chars@ == text@,
{
    let mut chars: Vec<char> = Vec::new();
    for ch in it: text.chars()
        invariant
            it.seq() == text@,
            chars@ == it.seq().take(it.index() as int),
    {
        assert(it.seq().take(it.index() as int).push(ch) =~= it.seq().take(it.index() as int + 1));
        chars.push(ch);
    }
    assert(chars@ =~= text@);
    chars
}

/// A string of the given text.
pub fn owned(text: &str) -> (copy: String)
    ensures
        copy@ == text@,
{
    text.to_owned()
}

/// Whether two texts are the same.
pub fn same_text(a: &str, b: &str) -> (same: bool)
    ensures
        same == (a@ == b@),
{
    a.to_owned() == b.to_owned()
}

/// The text after the first character that ends a control sequence.
pub open spec fn after_final_byte(text: Seq<char>) -> Seq<char>
    decreases text.len(),
{
    if text.len() == 0 {
        text
    } else if '@' <= text[0] <= '~' {
        text.skip(1)
    } else {
        after_final_byte(text.skip(1))
    }
}

/// The text without escape characters and without the control sequences that they introduce.
pub open spec fn without_controls(text: Seq<char>) -> Seq<char>
    decreases text.len(),
    via without_controls_shrinks
{
    if text.len() == 0 {
        text
    } else if text[0] != '\u{1b}' {
        seq![text[0]] + without_controls(text.skip(1))
    } else if text.len() > 1 && text[1] == '[' {
        without_controls(after_final_byte(text.skip(2)))
    } else {
        without_controls(text.skip(1))
    }
}

#[via_fn]
proof fn without_controls_shrinks(text: Seq<char>) {
    if text.len() > 1 {
        lemma_after_final_byte(text.skip(2));
    }
}

proof fn lemma_after_final_byte(text: Seq<char>)
    ensures
        after_final_byte(text).len() <= text.len(),
        after_final_byte(text) == text.skip(text.len() - after_final_byte(text).len()),
    decreases text.len(),
{
    if text.len() == 0 {
        assert(text.skip(0) =~= text);
    } else if !('@' <= text[0] <= '~') {
        let rest = text.skip(1);
        lemma_after_final_byte(rest);
        assert(rest.skip(rest.len() - after_final_byte(rest).len()) =~= text.skip(
            text.len() - after_final_byte(text).len(),
        ));
    }
}

/// Removes terminal control sequences.
pub fn strip_ansi_controls(input: &str) -> (clean: String)
    ensures
        clean@ == without_controls(input@),
{
    let chars: Vec<char> = characters(input);
    let mut clean: String = String::new();
    let mut i: usize = 0;
    assert(chars@.skip(0) =~= chars@);
    while i < chars.len()
        invariant
            i <= chars.len(),
            clean@ + without_controls(chars@.skip(i as int)) == without_controls(chars@),
        decreases chars.len() - i,
    {
        let ghost rest = chars@.skip(i as int);
        if chars[i] == '\u{1b}' {
            if i + 1 < chars.len() && chars[i + 1] == '[' {
                let mut j: usize = i + 2;
                let mut ended: bool = false;
                assert(rest.skip(2) =~= chars@.skip(j as int));
                while j < chars.len() && !ended
                    invariant
                        i + 2 <= j <= chars.len(),
                        after_final_byte(rest.skip(2)) == if ended {
                            chars@.skip(j as int)
                        } else {
                            after_final_byte(chars@.skip(j as int))
                        },
                    decreases chars.len() - j,
                {
                    assert(chars@.skip(j as int).skip(1) =~= chars@.skip(j + 1));
                    let ch: char = chars[j];
                    assert(chars@.skip(j as int)[0] == ch);
                    ended = '@' <= ch && ch <= '~';
                    j = j + 1;
                }
                i = j;
            } else {
                assert(rest.skip(1) =~= chars@.skip(i + 1));
                i = i + 1;
            }
        } else {
            assert(rest.skip(1) =~= chars@.skip(i + 1));
            let ghost before = clean@;
            clean.push(chars[i]);
            assert(clean@ + without_controls(chars@.skip(i + 1)) =~= before
                + without_controls(rest));
            i = i + 1;
        }
    }
    assert(clean@ + without_controls(chars@.skip(i as int)) =~= clean@);
    clean
}

/// Cleaned text holds no escape character.
pub proof fn cleaned_text_has_no_escape(text: Seq<char>)
    ensures
        !without_controls(text).contains('\u{1b}'),
    decreases text.len(),
{
    if text.len() > 0 {
        if text[0] != '\u{1b}' {
            let rest = without_controls(text.skip(1));
            cleaned_text_has_no_escape(text.skip(1));
            let whole = seq![text[0]] + rest;
            if whole.contains('\u{1b}') {
                let i = choose|i: int| 0 <= i < whole.len() && whole[i] == '\u{1b}';
                assert(rest[i - 1] == '\u{1b}');
            }
        } else if text.len() > 1 && text[1] == '[' {
            lemma_after_final_byte(text.skip(2));
            cleaned_text_has_no_escape(after_final_byte(text.skip(2)));
        } else {
            cleaned_text_has_no_escape(text.skip(1));
        }
    }
}

/// Text without an escape character is left as it is.
pub proof fn plain_text_is_kept(text: Seq<char>)
    requires
        !text.contains('\u{1b}'),
    ensures
        without_controls(text) == text,
    decreases text.len(),
{
    if text.len() > 0 {
        assert(text.contains(text[0]));
        let rest = text.skip(1);
        if rest.contains('\u{1b}') {
            let i = choose|i: int| 0 <= i < rest.len() && rest[i] == '\u{1b}';
            assert(text[i + 1] == '\u{1b}');
        }
        plain_text_is_kept(rest);
        assert(seq![text[0]] + rest =~= text);
    }
}

/// Cleaning twice is cleaning once.
pub proof fn cleaning_is_idempotent(text: Seq<char>)
    ensures
        without_controls(without_controls(text)) == without_controls(text),
{
    cleaned_text_has_no_escape(text);
    plain_text_is_kept(without_controls(text));
}

/// The decimal digit of a value below ten.
pub open spec fn digit(value: nat) -> char {
    (48 + value) as char
}

/// A number in decimal notation.
pub open spec fn decimal(n: nat) -> Seq<char>
    decreases n,
{
    if n < 10 {
        seq![digit(n)]
    } else {
        decimal(n / 10).push(digit(n % 10))
    }
}

/// Appends a number in decimal notation.
pub fn push_decimal(text: &mut String, n: u128)
    ensures
        final(text)@ == old(text)@ + decimal(n as nat),
    decreases n,
{
    if n >= 10 {
        push_decimal(text, n / 10);
    }
    let code: u8 = 48 + (n % 10) as u8;
    assert(code as char == digit((n % 10) as nat));
    text.push(code as char);
    assert(text@ =~= old(text)@ + decimal(n as nat));
}

/// A number in decimal notation.
pub fn decimal_text(n: u64) -> (text: String)
    ensures
        text@ == decimal(n as nat),
{
    let mut text: String = String::new();
    push_decimal(&mut text, n as u128);
    assert(text@ =~= decimal(n as nat));
    text
}

/// How often a size is divided by 1024 before it is shown, at most four times.
pub open spec fn unit_rank(size: nat) -> nat {
    if size < 0x400 {
        0
    } else if size < 0x10_0000 {
        1
    } else if size < 0x4000_0000 {
        2
    } else if size < 0x100_0000_0000 {
        3
    } else {
        4
    }
}

/// The number of bytes in the unit of a rank.
pub open spec fn unit_bytes(rank: nat) -> nat {
    if rank == 0 {
        1
    } else if rank == 1 {
        0x400
    } else if rank == 2 {
        0x10_0000
    } else if rank == 3 {
        0x4000_0000
    } else {
        0x100_0000_0000
    }
}

/// The name of the unit of a rank, behind a space.
pub open spec fn unit_suffix(rank: nat) -> Seq<char> {
    if rank == 0 {
        " B"@
    } else if rank == 1 {
        " KB"@
    } else if rank == 2 {
        " MB"@
    } else if rank == 3 {
        " GB"@
    } else {
        " TB"@
    }
}

/// A size as people read it: plain bytes below one kilobyte, else the double nearest to the size
/// in the largest fitting unit, with one decimal place, ties to even.
pub open spec fn size_text(bytes: nat) -> Seq<char> {
    let size = crate::binary64::nearest(bytes);
    let rank = unit_rank(size);
    if rank == 0 {
        decimal(bytes) + unit_suffix(0)
    } else {
        let tenths = crate::binary64::half_even(10 * size, unit_bytes(rank));
        decimal(tenths / 10) + seq!['.', digit(tenths % 10)] + unit_suffix(rank)
    }
}

/// A size as people read it.
pub fn format_bytes(bytes: u64) -> (text: String)
    ensures
        text@ == size_text(bytes as nat),
{
    let size: u128 = to_nearest(bytes as u128);
    let mut text: String = String::new();
    if size < 0x400 {
        push_decimal(&mut text, bytes as u128);
        text.append(" B");
        assert(text@ =~= size_text(bytes as nat));
        return text;
    }
    let (unit, suffix): (u128, &str) = if size < 0x10_0000 {
        (0x400, " KB")
    } else if size < 0x4000_0000 {
        (0x10_0000, " MB")
    } else if size < 0x100_0000_0000 {
        (0x4000_0000, " GB")
    } else {
        (0x100_0000_0000, " TB")
    };
    let tenths: u128 = round_half_even(10 * size, unit);
    push_decimal(&mut text, tenths / 10);
    text.push('.');
    let code: u8 = 48 + (tenths % 10) as u8;
    assert(code as char == digit((tenths % 10) as nat));
    text.push(code as char);
    text.append(suffix);
    assert(text@ =~= size_text(bytes as nat));
    text
}

/// The lines that are kept when only the newest are wanted, cleaned of control sequences.
pub open spec fn newest_lines(lines: Seq<String>, limit: nat) -> Seq<Seq<char>> {
    let kept = if lines.len() <= limit {
        lines
    } else {
        lines.skip(lines.len() - limit)
    };
    Seq::new(kept.len(), |i: int| without_controls(kept[i]@))
}

/// Takes in one more line and drops the oldest where there are more than wanted.
pub fn keep_line(lines: &mut Vec<String>, line: &str, limit: usize)
    requires
        old(lines)@.len() <= limit,
    ensures
        final(lines)@.len() <= limit,
        ({
            let clean = final(lines)@.last();
            let grown = old(lines)@.push(clean);
            &&& limit > 0 ==> clean@ == without_controls(line@)
            &&& limit > 0 ==> final(lines)@ == if grown.len() > limit {
                grown.skip(1)
            } else {
                grown
            }
            &&& limit == 0 ==> final(lines)@.len() == 0
        }),
{
    if limit == 0 {
        return ;
    }
    if lines.len() == limit {
        let _ = lines.remove(0);
    }
    lines.push(strip_ansi_controls(line));
    assert(limit > 0 ==> lines@ =~= if old(lines)@.push(lines@.last()).len() > limit {
        old(lines)@.push(lines@.last()).skip(1)
    } else {
        old(lines)@.push(lines@.last())
    });
}

/// The newest lines of a log, cleaned of control sequences.
pub fn read_last_lines(lines: &Vec<String>, max_lines: usize) -> (newest: Vec<String>)
    ensures
        newest@.len() == newest_lines(lines@, max_lines as nat).len(),
        forall|i: int|
            0 <= i < newest@.len() ==> (#[trigger] newest@[i])@ == newest_lines(
                lines@,
                max_lines as nat,
            )[i],
{
    let mut newest: Vec<String> = Vec::new();
    if max_lines == 0 {
        return newest;
    }
    let mut taken: usize = 0;
    while taken < lines.len()
        invariant
            taken <= lines.len(),
            max_lines > 0,
            newest@.len() <= max_lines,
            newest@.len() == newest_lines(lines@.take(taken as int), max_lines as nat).len(),
            forall|i: int|
                0 <= i < newest@.len() ==> (#[trigger] newest@[i])@ == newest_lines(
                    lines@.take(taken as int),
                    max_lines as nat,
                )[i],
        decreases lines.len() - taken,
    {
        let ghost before = newest@;
        keep_line(&mut newest, lines[taken].as_str(), max_lines);
        proof {
            let head = lines@.take(taken as int);
            let next = lines@.take(taken + 1);
            let shift: int = if before.len() == max_lines { 1 } else { 0 };
            assert forall|i: int| 0 <= i < newest@.len() implies (#[trigger] newest@[i])@
                == newest_lines(next, max_lines as nat)[i] by {
                if i + 1 < newest@.len() {
                    assert(newest@[i] == before[i + shift]);
                    assert(before[i + shift]@ == newest_lines(head, max_lines as nat)[i + shift]);
                }
            }
        }
        taken = taken + 1;
    }
    assert(lines@.take(taken as int) =~= lines@);
    newest
}

/// Texts with a slash between neighbours.
pub open spec fn slash_joined(parts: Seq<String>) -> Seq<char>
    decreases parts.len(),
{
    if parts.len() == 0 {
        Seq::<char>::empty()
    } else if parts.len() == 1 {
        parts[0]@
    } else {
        slash_joined(parts.drop_last()) + "/"@ + parts.last()@
    }
}

/// Texts with a slash between neighbours.
pub fn join_with_slash(parts: &Vec<String>) -> (joined: String)
    ensures
        joined@ == slash_joined(parts@),
{
    let mut joined: String = String::new();
    let mut i: usize = 0;
    while i < parts.len()
        invariant
            i <= parts.len(),
            joined@ == slash_joined(parts@.take(i as int)),
        decreases parts.len() - i,
    {
        let ghost before = joined@;
        assert(parts@.take(i + 1).drop_last() =~= parts@.take(i as int));
        if i > 0 {
            joined.append("/");
        }
        joined.append(parts[i].as_str());
        assert(joined@ =~= slash_joined(parts@.take(i + 1)));
        i = i + 1;
    }
    assert(parts@.take(i as int) =~= parts@);
    joined
}

/// The text holds the sample somewhere.
pub open spec fn holds_text(text: Seq<char>, sample: Seq<char>) -> bool {
    exists|at: int|
        0 <= at <= text.len() - sample.len() && #[trigger] text.subrange(at, at + sample.len())
            == sample
}

/// Whether the text holds the sample somewhere.
pub fn contains_text(text: &str, sample: &str) -> (found: bool)
    ensures
        found == holds_text(text@, sample@),
{
    let chars: Vec<char> = characters(text);
    let wanted: Vec<char> = characters(sample);
    if wanted.len() > chars.len() {
        return false;
    }
    let mut at: usize = 0;
    while at <= chars.len() - wanted.len()
        invariant
            wanted.len() <= chars.len(),
            at <= chars.len() - wanted.len() + 1,
            chars@ == text@,
            wanted@ == sample@,
            forall|k: int|
                0 <= k < at ==> #[trigger] text@.subrange(k, k + sample@.len()) != sample@,
        decreases chars.len() - at,
    {
        let mut same: usize = 0;
        while same < wanted.len() && chars[at + same] == wanted[same]
            invariant
                wanted.len() <= chars.len(),
                at <= chars.len() - wanted.len(),
                same <= wanted.len(),
                forall|k: int| 0 <= k < same ==> chars@[at + k] == #[trigger] wanted@[k],
            decreases wanted.len() - same,
        {
            same = same + 1;
        }
        let ghost window = text@.subrange(at as int, at + sample@.len());
        if same == wanted.len() {
            assert(window =~= sample@);
            return true;
        }
        assert(window[same as int] != sample@[same as int]);
        if at == chars.len() - wanted.len() {
            return false;
        }
        at = at + 1;
    }
    false
}

/// A text holds any part of it.
pub proof fn texts_hold_their_parts(before: Seq<char>, part: Seq<char>, after: Seq<char>)
    ensures
        holds_text(before + part + after, part),
        holds_text(part, part),
        part.len() > before.len() ==> !holds_text(before, part),
{
    let whole = before + part + after;
    let at = before.len() as int;
    assert(whole.subrange(at, at + part.len()) =~= part);
    let from: int = 0;
    assert(part.subrange(from, from + part.len()) =~= part);
}

/// The newest lines are kept, as many as are asked for, in their order and without controls.
pub proof fn the_newest_lines_are_shown(lines: Seq<String>, limit: nat, back: int)
    ensures
        newest_lines(lines, limit).len() == if lines.len() <= limit {
            lines.len()
        } else {
            limit
        },
        1 <= back <= newest_lines(lines, limit).len() ==> newest_lines(lines, limit)[newest_lines(
            lines,
            limit,
        ).len() - back] == without_controls(lines[lines.len() - back]@),
{
}

/// Parts are joined by single slashes, in their order, with none before the first or after the
/// last.
pub proof fn parts_are_joined_by_slashes(parts: Seq<String>, more: String)
    ensures
        slash_joined(Seq::<String>::empty()).len() == 0,
        slash_joined(seq![more]) == more@,
        parts.len() > 0 ==> slash_joined(parts.push(more)) == slash_joined(parts) + "/"@ + more@,
{
    assert(parts.push(more).drop_last() =~= parts);
}

/// A size under one kilobyte is shown in bytes; any other in the largest unit that fits into it,
/// with one decimal that is nearest to it.
pub proof fn sizes_are_shown_in_their_unit(size: nat)
    ensures
        ({
            let rank = unit_rank(size);
            let unit = unit_bytes(rank);
            let tenths = crate::binary64::half_even(10 * size, unit);
            &&& rank <= 4
            &&& rank == 0 <==> size < 1024
            &&& rank > 0 ==> unit <= size
            &&& rank < 4 ==> size < 1024 * unit
            &&& 2 * tenths * unit <= 20 * size + unit
            &&& 2 * tenths * unit + unit >= 20 * size
        }),
{
    let rank = unit_rank(size);
    let unit = unit_bytes(rank);
    let n = 10 * size;
    let q = n / unit;
    let r = n % unit;
    assert(n == unit * q + r && 0 <= r < unit) by {
        vstd::arithmetic::div_mod::lemma_fundamental_div_mod(n as int, unit as int);
        vstd::arithmetic::div_mod::lemma_mod_bound(n as int, unit as int);
    }
    let tenths = crate::binary64::half_even(n, unit);
    if tenths == q {
        assert(2 * tenths * unit == 2 * (unit * q)) by (nonlinear_arith)
            requires
                tenths == q,
        ;
    } else {
        assert(2 * tenths * unit == 2 * (unit * q) + 2 * unit) by (nonlinear_arith)
            requires
                tenths == q + 1,
        ;
    }
}

/// The number that decimal digits spell.
pub open spec fn spelled(text: Seq<char>) -> int
    decreases text.len(),
{
    if text.len() == 0 {
        0
    } else {
        spelled(text.drop_last()) * 10 + (text.last() as int - 48)
    }
}

/// A number is written in decimal digits that spell it.
pub proof fn decimals_spell_their_number(n: nat)
    ensures
        spelled(decimal(n)) == n,
        decimal(n).len() > 0,
    decreases n,
{
    if n < 10 {
        let text = decimal(n);
        assert(text.drop_last() =~= Seq::<char>::empty());
        assert(spelled(text.drop_last()) == 0);
        assert(text.last() as int == 48 + n);
    } else {
        decimals_spell_their_number(n / 10);
        let text = decimal(n);
        assert(text.drop_last() =~= decimal(n / 10));
        assert(text.last() as int == 48 + n % 10);
    }
}

/// A size under one kilobyte is written out in bytes; every other one ends in the name of its unit.
pub proof fn small_sizes_are_written_out(bytes: nat)
    ensures
        bytes < 1024 ==> size_text(bytes) == decimal(bytes) + " B"@,
        bytes >= 1024 && bytes < 0x20_0000_0000_0000 ==> ({
            let suffix = if bytes < 0x10_0000 {
                " KB"@
            } else if bytes < 0x4000_0000 {
                " MB"@
            } else if bytes < 0x100_0000_0000 {
                " GB"@
            } else {
                " TB"@
            };
            let text = size_text(bytes);
            &&& text.len() > suffix.len() + 2
            &&& text.subrange(text.len() - suffix.len(), text.len() as int) == suffix
            &&& text[text.len() - suffix.len() - 2] == '.'
        }),
{
    crate::binary64::rounding_is_close(bytes);
    if bytes >= 1024 && bytes < 0x20_0000_0000_0000 {
        let rank = unit_rank(bytes);
        let tenths = crate::binary64::half_even(10 * bytes, unit_bytes(rank));
        let front = decimal(tenths / 10) + seq!['.', digit(tenths % 10)];
        decimals_spell_their_number(tenths / 10);
        let text = size_text(bytes);
        assert(text == front + unit_suffix(rank));
        assert(text.subrange(front.len() as int, text.len() as int) =~= unit_suffix(rank));
        assert(text[front.len() - 2] == front[front.len() - 2]);
    }
}

} // verus!
