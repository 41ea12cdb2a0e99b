//! Keys in the message and confirmation dialogs.
//!
//! A message stays open until it is dismissed and scrolls with the cursor keys,
//! ten lines at a time with PgUp and PgDn. A confirmation runs its action on `y`
//! or Enter; an irreversible one asks for the resource's name to be typed and
//! runs only when the typed text equals it.

use vstd::prelude::*;

use crate::keys::Key;
use crate::text::vec_eq;

verus! {

/// Number of `'\n'` in `s`.
pub open spec fn newline_count(s: Seq<char>) -> nat
    decreases s.len(),
{
    if s.len() == 0 {
        0
    } else {
        newline_count(s.drop_last()) + if s.last() == '\n' { 1nat } else { 0nat }
    }
}

/// Number of lines of a text, as `str::lines` counts them: a final line break
/// does not start another line.
pub open spec fn line_count(s: Seq<char>) -> nat {
    if s.len() == 0 {
        0
    } else if s.last() == '\n' {
        newline_count(s)
    } else {
        newline_count(s) + 1
    }
}

/// Counts the lines of `text`, truncated to 16 bits as the scroll position is.
pub fn line_count_u16(text: &Vec<char>) -> (r: u16)
    ensures
        r == line_count(text@) as u16,
{
    let mut count: usize = 0;
    let mut i: usize = 0;
    while i < text.len()
        invariant
            i <= text.len(),
            count == newline_count(text@.subrange(0, i as int)),
            count <= i,
        decreases text.len() - i,
    {
        assert(text@.subrange(0, i + 1).drop_last() =~= text@.subrange(0, i as int));
        if text[i] == '\n' {
            count = count + 1;
        }
        i = i + 1;
    }
    assert(text@.subrange(0, text.len() as int) =~= text@);
    if text.len() > 0 && text[text.len() - 1] != '\n' {
        proof { lemma_newline_count_bound(text@.drop_last()); }
        count = count + 1;
    }
    #[verifier::truncate]
    (count as u16)
}

proof fn lemma_newline_count_bound(s: Seq<char>)
    ensures
        newline_count(s) <= s.len(),
    decreases s.len(),
{
    if s.len() > 0 {
        lemma_newline_count_bound(s.drop_last());
    }
}

pub open spec fn saturating_add_u16(a: u16, b: u16) -> u16 {
    if a + b > u16::MAX { u16::MAX } else { (a + b) as u16 }
}

pub open spec fn saturating_sub_u16(a: u16, b: u16) -> u16 {
    if a < b { 0 } else { (a - b) as u16 }
}

/// What a key does to an open message scrolled to `scroll`, whose body has
/// `lines` lines: `None` closes it, `Some(s)` keeps it open scrolled to `s`.
pub open spec fn spec_message_key(scroll: u16, lines: u16, key: Key) -> Option<u16> {
    match key {
        Key::Esc | Key::Enter | Key::Char('q') => None,
        Key::Down | Key::Char('j') => Some(saturating_add_u16(scroll, 1)),
        Key::Up | Key::Char('k') => Some(saturating_sub_u16(scroll, 1)),
        Key::PageDown => Some(saturating_add_u16(scroll, 10)),
        Key::PageUp => Some(saturating_sub_u16(scroll, 10)),
        Key::Home | Key::Char('g') => Some(0),
        Key::End | Key::Char('G') => Some(lines),
        _ => Some(scroll),
    }
}

/// Applies a key to an open message whose body is `body`.
pub fn message_key(scroll: u16, body: &Vec<char>, key: Key) -> (r: Option<u16>)
    ensures
        r == spec_message_key(scroll, line_count(body@) as u16, key),
{
    match key {
        Key::Esc | Key::Enter | Key::Char('q') => None,
        _ => {
            let lines = line_count_u16(body);
            let next = match key {
                Key::Down | Key::Char('j') => scroll.saturating_add(1),
                Key::Up | Key::Char('k') => scroll.saturating_sub(1),
                Key::PageDown => scroll.saturating_add(10),
                Key::PageUp => scroll.saturating_sub(10),
                Key::Home | Key::Char('g') => 0,
                Key::End | Key::Char('G') => lines,
                _ => scroll,
            };
            Some(next)
        },
    }
}

/// The part of a confirmation dialog that keys change: the name to be typed, if
/// the action asks for one, and what has been typed so far.
#[derive(Debug, Clone, PartialEq, Eq)]
pub struct ConfirmPrompt {
    pub verify: Option<Vec<char>>,
    pub typed: Vec<char>,
}

/// The outcome of a key in a confirmation dialog.
#[derive(Debug, Clone, Copy, PartialEq, Eq, Structural)]
pub enum ConfirmStep {
    /// Run the action; the dialog closes.
    Run,
    /// Drop the action; the dialog closes.
    Cancel,
    /// The dialog stays open.
    Keep,
    /// Enter with a typed text that differs from the name: the dialog stays open
    /// and the mismatch is reported.
    Mismatch,
}

/// The outcome of `key` in a dialog asking for `verify` with `typed` typed.
pub open spec fn spec_confirm_step(verify: Option<Seq<char>>, typed: Seq<char>, key: Key) -> ConfirmStep {
    match verify {
        None => match key {
            Key::Char('y') | Key::Char('Y') | Key::Enter => ConfirmStep::Run,
            Key::Char('n') | Key::Char('N') | Key::Char('q') | Key::Esc => ConfirmStep::Cancel,
            _ => ConfirmStep::Keep,
        },
        Some(expected) => match key {
            Key::Esc => ConfirmStep::Cancel,
            Key::Enter => if typed == expected { ConfirmStep::Run } else { ConfirmStep::Mismatch },
            _ => ConfirmStep::Keep,
        },
    }
}

/// What is typed after `key`: the name is edited only in a dialog that asks for
/// one, Backspace removes the last character and a character key appends it.
pub open spec fn spec_typed_after(verify: Option<Seq<char>>, typed: Seq<char>, key: Key) -> Seq<char> {
    match verify {
        None => typed,
        Some(_) => match key {
            Key::Backspace => if typed.len() == 0 { typed } else { typed.drop_last() },
            Key::Char(c) => typed.push(c),
            _ => typed,
        },
    }
}

pub open spec fn verify_view(verify: Option<Vec<char>>) -> Option<Seq<char>> {
    match verify {
        Some(v) => Some(v@),
        None => None,
    }
}

impl ConfirmPrompt {
    /// Applies a key to the dialog.
    pub fn key(&mut self, key: Key) -> (r: ConfirmStep)
        ensures
            r == spec_confirm_step(verify_view(old(self).verify), old(self).typed@, key),
            final(self).verify == old(self).verify,
            final(self).typed@ == spec_typed_after(verify_view(old(self).verify), old(self).typed@, key),
    {
        match &self.verify {
            None => match key {
                Key::Char('y') | Key::Char('Y') | Key::Enter => ConfirmStep::Run,
                Key::Char('n') | Key::Char('N') | Key::Char('q') | Key::Esc => ConfirmStep::Cancel,
                _ => ConfirmStep::Keep,
            },
            Some(expected) => match key {
                Key::Esc => ConfirmStep::Cancel,
                Key::Enter => {
                    if vec_eq(&self.typed, expected) {
                        ConfirmStep::Run
                    } else {
                        ConfirmStep::Mismatch
                    }
                },
                Key::Backspace => {
                    if self.typed.len() > 0 {
                        self.typed.pop();
                    }
                    ConfirmStep::Keep
                },
                Key::Char(c) => {
                    self.typed.push(c);
                    ConfirmStep::Keep
                },
                _ => ConfirmStep::Keep,
            },
        }
    }

    /// Pasted text goes into the name being typed, when the dialog asks for one.
    pub fn paste(&mut self, text: &Vec<char>)
        ensures
            final(self).verify == old(self).verify,
            final(self).typed@ == if old(self).verify is Some {
                old(self).typed@ + text@
            } else {
                old(self).typed@
            },
    {
        if self.verify.is_some() {
            let mut i: usize = 0;
            let ghost start = self.typed@;
            while i < text.len()
                invariant
                    i <= text.len(),
                    self.verify == old(self).verify,
                    start == old(self).typed@,
                    self.typed@ == start + text@.subrange(0, i as int),
                decreases text.len() - i,
            {
                self.typed.push(text[i]);
                i = i + 1;
                assert(self.typed@ =~= start + text@.subrange(0, i as int));
            }
            assert(text@.subrange(0, text.len() as int) =~= text@);
        }
    }
}

/// A confirmation that asks for a name runs its action only on Enter, and only
/// when what was typed equals the name.
pub proof fn law_typed_confirmation_runs_only_on_the_name(expected: Seq<char>, typed: Seq<char>, key: Key)
    ensures
        spec_confirm_step(Some(expected), typed, key) == ConfirmStep::Run <==> (key == Key::Enter && typed == expected),
{
}

/// Typing the name character by character and pressing Enter runs the action.
pub proof fn law_typing_the_name_confirms(expected: Seq<char>, typed: Seq<char>, c: char)
    requires
        typed.push(c) == expected,
    ensures
        spec_confirm_step(Some(expected), spec_typed_after(Some(expected), typed, Key::Char(c)), Key::Enter)
            == ConfirmStep::Run,
{
}

/// PgDn and PgUp move a message by ten lines, short of the ends of the range.
pub proof fn law_page_keys_move_by_ten(scroll: u16, lines: u16)
    ensures
        scroll + 10 <= u16::MAX ==> spec_message_key(scroll, lines, Key::PageDown) == Some((scroll + 10) as u16),
        scroll >= 10 ==> spec_message_key(scroll, lines, Key::PageUp) == Some((scroll - 10) as u16),
{
}

} // verus!
