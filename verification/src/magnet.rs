use vstd::prelude::*;

use crate::text::{chars_of, push_char};

verus! {

/// A control character: the Unicode general category `Cc`, that is
/// U+0000..=U+001F and U+007F..=U+009F (what `char::is_control` tests).
pub open spec fn is_control(c: char) -> bool {
    (c as u32) <= 0x1f || (0x7f <= (c as u32) && (c as u32) <= 0x9f)
}

/// Whether `s` holds at least one control character.
pub open spec fn has_control(s: Seq<char>) -> bool {
    exists|i: int| 0 <= i < s.len() && #[trigger] is_control(s[i])
}

/// `s` with every control character removed, the others kept in order.
pub open spec fn without_controls(s: Seq<char>) -> Seq<char> {
    s.filter(|c: char| !is_control(c))
}

/// The magnet emoji and two spaces that start every magnet line.
pub open spec fn magnet_prefix() -> Seq<char> {
    seq!['\u{1F9F2}', ' ', ' ']
}

/// The start of an OSC 8 hyperlink escape: ESC `]8;;`.
pub open spec fn osc8() -> Seq<char> {
    seq!['\u{1b}', ']', '8', ';', ';']
}

/// The string terminator of an OSC escape: ESC `\`.
pub open spec fn string_terminator() -> Seq<char> {
    seq!['\u{1b}', '\\']
}

/// The line printed for a magnet link: a terminal hyperlink whose target and
/// text are the magnet when hyperlinks are enabled and the magnet holds no
/// control character, otherwise the magnet with its control characters removed.
pub open spec fn magnet_line(magnet: Seq<char>, hyperlinks_enabled: bool) -> Seq<char> {
    let clean = without_controls(magnet);
    if hyperlinks_enabled && !has_control(magnet) {
        magnet_prefix() + osc8() + clean + string_terminator() + clean + osc8()
            + string_terminator()
    } else {
        magnet_prefix() + clean
    }
}

fn is_control_char(c: char) -> (r: bool)
    ensures
        r == is_control(c),
{
    let code: u32 = c as u32;
    code <= 0x1f || (0x7f <= code && code <= 0x9f)
}

fn push_chars(s: &mut String, chars: &Vec<char>)
    ensures
        final(s)@ == old(s)@ + chars@,
{
    let ghost start = s@;
    for i in 0..chars.len()
        invariant
            s@ == start + chars@.take(i as int),
    {
        push_char(s, chars[i]);
        assert(chars@.take(i + 1) =~= chars@.take(i as int).push(chars@[i as int]));
    }
    assert(chars@.take(chars@.len() as int) =~= chars@);
}

fn push_osc8(s: &mut String)
    ensures
        final(s)@ == old(s)@ + osc8(),
{
    let ghost start = s@;
    push_char(s, '\u{1b}');
    push_char(s, ']');
    push_char(s, '8');
    push_char(s, ';');
    push_char(s, ';');
    assert(s@ =~= start + osc8());
}

fn push_string_terminator(s: &mut String)
    ensures
        final(s)@ == old(s)@ + string_terminator(),
{
    let ghost start = s@;
    push_char(s, '\u{1b}');
    push_char(s, '\\');
    assert(s@ =~= start + string_terminator());
}

/// Formats the line that shows a magnet link. With hyperlinks enabled and a
/// magnet free of control characters the link is wrapped in an OSC 8
/// hyperlink escape; otherwise, and always with control characters removed,
/// it is printed as plain text.
pub fn format_magnet_line(magnet: &str, hyperlinks_enabled: bool) -> (line: String)
    ensures
        line@ == magnet_line(magnet@, hyperlinks_enabled),
{
    let chars = chars_of(magnet);
    let mut sanitized: Vec<char> = Vec::new();
    let mut contains_control_characters = false;
    for i in 0..chars.len()
        invariant
            chars@ == magnet@,
            sanitized@ == without_controls(magnet@.take(i as int)),
            contains_control_characters == has_control(magnet@.take(i as int)),
    {
        let c = chars[i];
        let ghost before = magnet@.take(i as int);
        assert(magnet@.take(i + 1) =~= before.push(c));
        proof {
            before.lemma_filter_push(c, |c: char| !is_control(c));
        }
        if is_control_char(c) {
            contains_control_characters = true;
            assert(is_control(magnet@.take(i + 1)[i as int]));
        } else {
            sanitized.push(c);
            proof {
                if contains_control_characters {
                    let j = choose|j: int| 0 <= j < before.len() && #[trigger] is_control(before[j]);
                    assert(is_control(magnet@.take(i + 1)[j]));
                }
            }
        }
        assert(has_control(magnet@.take(i + 1)) ==> has_control(before) || is_control(c));
    }
    assert(magnet@.take(chars.len() as int) =~= magnet@);

    let mut line = String::new();
    push_char(&mut line, '\u{1F9F2}');
    push_char(&mut line, ' ');
    push_char(&mut line, ' ');
    assert(line@ =~= magnet_prefix());
    if hyperlinks_enabled && !contains_control_characters {
        push_osc8(&mut line);
        push_chars(&mut line, &sanitized);
        push_string_terminator(&mut line);
        push_chars(&mut line, &sanitized);
        push_osc8(&mut line);
        push_string_terminator(&mut line);
    } else {
        push_chars(&mut line, &sanitized);
    }
    line
}

/// Whatever the input, the magnet text that a line shows holds no control
/// character.
pub proof fn lemma_shown_magnet_has_no_control(magnet: Seq<char>)
    ensures
        !has_control(without_controls(magnet)),
{
    let clean = without_controls(magnet);
    assert forall|i: int| 0 <= i < clean.len() implies !is_control(#[trigger] clean[i]) by {
        magnet.lemma_filter_pred(|c: char| !is_control(c), i);
    }
}

/// A magnet that holds no control character is shown unchanged.
pub proof fn lemma_clean_magnet_is_kept(magnet: Seq<char>)
    requires
        !has_control(magnet),
    ensures
        without_controls(magnet) == magnet,
    decreases magnet.len(),
{
    if magnet.len() > 0 {
        let init = magnet.drop_last();
        assert forall|i: int| 0 <= i < init.len() implies !is_control(#[trigger] init[i]) by {
            assert(init[i] == magnet[i]);
        }
        lemma_clean_magnet_is_kept(init);
        init.lemma_filter_push(magnet.last(), |c: char| !is_control(c));
        assert(init.push(magnet.last()) =~= magnet);
        assert(!is_control(magnet[magnet.len() - 1]));
    } else {
        assert(magnet.filter(|c: char| !is_control(c)) =~= magnet) by {
            reveal(Seq::filter);
        }
    }
}

/// A magnet line that is not a hyperlink holds no control character at all,
/// so neither an escape nor a line break from the magnet reaches the terminal;
/// a hyperlink is only ever made of a magnet that held none.
pub proof fn lemma_magnet_line_controls(magnet: Seq<char>, hyperlinks_enabled: bool)
    ensures
        !(hyperlinks_enabled && !has_control(magnet)) ==> !has_control(
            magnet_line(magnet, hyperlinks_enabled),
        ),
        (hyperlinks_enabled && !has_control(magnet)) ==> magnet_line(magnet, hyperlinks_enabled)
            == magnet_prefix() + osc8() + magnet + string_terminator() + magnet + osc8()
            + string_terminator(),
{
    if hyperlinks_enabled && !has_control(magnet) {
        lemma_clean_magnet_is_kept(magnet);
    } else {
        lemma_shown_magnet_has_no_control(magnet);
        let clean = without_controls(magnet);
        let line = magnet_prefix() + clean;
        assert forall|i: int| 0 <= i < line.len() implies !is_control(#[trigger] line[i]) by {
            if i >= 3 {
                assert(line[i] == clean[i - 3]);
            }
        }
    }
}

/// A plain line (hyperlinks disabled, or a magnet holding a control
/// character) is the prefix followed by the whole magnet less its control
/// characters; a plain line of a magnet without control characters is the
/// prefix followed by the magnet itself.
pub proof fn lemma_plain_magnet_line(magnet: Seq<char>, hyperlinks_enabled: bool)
    ensures
        !(hyperlinks_enabled && !has_control(magnet)) ==> magnet_line(magnet, hyperlinks_enabled)
            == magnet_prefix() + magnet.filter(|c: char| !is_control(c)),
        !hyperlinks_enabled && !has_control(magnet) ==> magnet_line(magnet, hyperlinks_enabled)
            == magnet_prefix() + magnet,
        magnet_line(magnet, hyperlinks_enabled).len() >= 3 + magnet.filter(
            |c: char| !is_control(c),
        ).len(),
{
    if !has_control(magnet) {
        lemma_clean_magnet_is_kept(magnet);
    }
}

} // verus!
