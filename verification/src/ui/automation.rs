//! Scripted keystrokes and offscreen screenshots, for checking the UI without a human, e.g.
//! `wait 2000; shot /tmp/a.png; keys l j; type hello; key enter; shot /tmp/b.png; quit`.
//! Mouse steps take window points: `drag x1 y1 x2 y2`, `wheel x y pixels`.

use vstd::prelude::*;

use crate::text::number::{parse_u64, read_u64};
use crate::text::seqs::{filter_map, lemma_filter_map_step, split, split_at, split_first, split_once, views};
use crate::text::strings::{chars_of, is_text, push_string, split_words, string_of, texts, trim, trimmed, words};

verus! {

/// One step of a script.
#[derive(Debug, PartialEq, Eq)]
pub enum Step {
    /// Pauses for that many milliseconds.
    Wait(u64),
    /// Presses these keys.
    Keys(Vec<String>),
    /// Presses the keys that type a text.
    Type(Vec<String>),
    /// Saves a picture of the window.
    Shot(String),
    /// Drags the mouse; the numbers are still to be read.
    Drag(Vec<String>),
    /// Turns the mouse wheel; the numbers are still to be read.
    Wheel(Vec<String>),
    Quit,
    /// A step that doesn't exist.
    Unknown(String),
}

#[verifier::ext_equal]
pub ghost enum StepView {
    Wait(u64),
    Keys(Seq<Seq<char>>),
    Type(Seq<Seq<char>>),
    Shot(Seq<char>),
    Drag(Seq<Seq<char>>),
    Wheel(Seq<Seq<char>>),
    Quit,
    Unknown(Seq<char>),
}

impl View for Step {
    type V = StepView;

    open spec fn view(&self) -> StepView {
        match self {
            Step::Wait(ms) => StepView::Wait(*ms),
            Step::Keys(keys) => StepView::Keys(texts(keys@)),
            Step::Type(keys) => StepView::Type(texts(keys@)),
            Step::Shot(path) => StepView::Shot(path@),
            Step::Drag(parts) => StepView::Drag(texts(parts@)),
            Step::Wheel(parts) => StepView::Wheel(texts(parts@)),
            Step::Quit => StepView::Quit,
            Step::Unknown(name) => StepView::Unknown(name@),
        }
    }
}

/// The views of some steps.
pub open spec fn step_views(steps: Seq<Step>) -> Seq<StepView> {
    steps.map_values(|s: Step| s@)
}

/// The key that types a character.
pub open spec fn key_for(c: char) -> Seq<char> {
    if c == ' ' {
        "space"@
    } else if 'A' <= c <= 'Z' {
        "shift-"@.push(((c as u32) + 32) as char)
    } else {
        seq![c]
    }
}

/// The keys that type a text.
pub open spec fn typed_keys(text: Seq<char>) -> Seq<Seq<char>> {
    text.map_values(|c: char| key_for(c))
}

/// How long a `wait` is: half a second if it doesn't say.
pub open spec fn wait_ms(arg: Seq<char>) -> u64 {
    match parse_u64(trim(arg)) {
        Some(ms) => ms,
        None => 500,
    }
}

/// The step that a command with its argument is.
pub open spec fn step_for(command: Seq<char>, arg: Seq<char>) -> StepView {
    if command == "wait"@ {
        StepView::Wait(wait_ms(arg))
    } else if command == "key"@ || command == "keys"@ {
        StepView::Keys(words(arg))
    } else if command == "type"@ {
        StepView::Type(typed_keys(arg))
    } else if command == "shot"@ {
        StepView::Shot(trim(arg))
    } else if command == "drag"@ {
        StepView::Drag(words(arg))
    } else if command == "wheel"@ {
        StepView::Wheel(words(arg))
    } else if command == "quit"@ {
        StepView::Quit
    } else {
        StepView::Unknown(command)
    }
}

/// The step that a part of a script is; a blank part is none.
pub open spec fn step_of(part: Seq<char>) -> Option<StepView> {
    let step = trim(part);
    if step.len() == 0 {
        None
    } else {
        match split_once(step, ' ') {
            Some((command, arg)) => Some(step_for(command, arg)),
            None => Some(step_for(step, Seq::empty())),
        }
    }
}

/// The steps of a script, separated by `;`.
pub open spec fn steps_of(script: Seq<char>) -> Seq<StepView> {
    filter_map(split(script, ';'), |part: Seq<char>| step_of(part))
}

/// The key that types a character.
fn type_key(c: char) -> (r: String)
    ensures
        r@ == key_for(c),
{
    if c == ' ' {
        "space".to_owned()
    } else if 'A' <= c && c <= 'Z' {
        let code: u32 = c as u32;
        let small: char = (code as u8 + 32) as char;
        let mut out = "shift-".to_owned();
        out.push(small);
        out
    } else {
        let mut out = String::new();
        out.push(c);
        assert(out@ =~= seq![c]);
        out
    }
}

/// The keys that type a text.
fn type_keys(text: &[char]) -> (r: Vec<String>)
    ensures
        texts(r@) == typed_keys(text@),
{
    let mut out: Vec<String> = Vec::new();
    let mut i: usize = 0;
    while i < text.len()
        invariant
            i <= text@.len(),
            texts(out@) == typed_keys(text@).take(i as int),
        decreases text@.len() - i,
    {
        push_string(&mut out, type_key(text[i]));
        assert(typed_keys(text@).take(i + 1) =~= typed_keys(text@).take(i as int).push(
            key_for(text@[i as int]),
        ));
        i = i + 1;
    }
    assert(typed_keys(text@).take(text@.len() as int) =~= typed_keys(text@));
    out
}

/// The words of a text.
fn word_strings(text: &[char]) -> (r: Vec<String>)
    ensures
        texts(r@) == words(text@),
{
    let ws = split_words(text);
    let ghost all = views(ws@);
    let mut out: Vec<String> = Vec::new();
    let mut i: usize = 0;
    while i < ws.len()
        invariant
            i <= ws@.len(),
            all == views(ws@),
            texts(out@) == all.take(i as int),
        decreases ws@.len() - i,
    {
        push_string(&mut out, string_of(ws[i]));
        assert(all.take(i + 1) =~= all.take(i as int).push(all[i as int]));
        i = i + 1;
    }
    assert(all.take(all.len() as int) =~= all);
    out
}

/// The step that a command with its argument is.
fn read_step(command: &[char], arg: &[char]) -> (r: Step)
    ensures
        r@ == step_for(command@, arg@),
{
    if is_text(command, "wait") {
        Step::Wait(
            match read_u64(trimmed(arg)) {
                Some(ms) => ms,
                None => 500,
            },
        )
    } else if is_text(command, "key") || is_text(command, "keys") {
        Step::Keys(word_strings(arg))
    } else if is_text(command, "type") {
        Step::Type(type_keys(arg))
    } else if is_text(command, "shot") {
        Step::Shot(string_of(trimmed(arg)))
    } else if is_text(command, "drag") {
        Step::Drag(word_strings(arg))
    } else if is_text(command, "wheel") {
        Step::Wheel(word_strings(arg))
    } else if is_text(command, "quit") {
        Step::Quit
    } else {
        Step::Unknown(string_of(command))
    }
}

/// The step that a part of a script is.
fn read_part(part: &[char]) -> (r: Option<Step>)
    ensures
        match r {
            Some(step) => step_of(part@) == Some(step@),
            None => step_of(part@) is None,
        },
{
    let text = trimmed(part);
    if text.len() == 0 {
        return None;
    }
    match split_first(text, ' ') {
        Some((command, arg)) => Some(read_step(command, arg)),
        None => {
            let none: Vec<char> = Vec::new();
            assert(none@ =~= Seq::<char>::empty());
            Some(read_step(text, none.as_slice()))
        },
    }
}

/// The steps of a script.
pub fn run(script: &str) -> (r: Vec<Step>)
    ensures
        step_views(r@) == steps_of(script@),
{
    let chars = chars_of(script);
    let parts = split_at(chars.as_slice(), ';');
    let ghost all = split(script@, ';');
    let ghost f = |part: Seq<char>| step_of(part);
    let mut result: Vec<Step> = Vec::new();
    let mut i: usize = 0;
    assert(all.take(0) =~= Seq::<Seq<char>>::empty());
    assert(step_views(result@) =~= Seq::<StepView>::empty());
    while i < parts.len()
        invariant
            i <= parts@.len(),
            all == views(parts@),
            f == (|part: Seq<char>| step_of(part)),
            step_views(result@) == filter_map(all.take(i as int), f),
        decreases parts@.len() - i,
    {
        let ghost before = step_views(result@);
        proof {
            lemma_filter_map_step(all, f, i as int);
            assert(all[i as int] == parts@[i as int]@);
        }
        if let Some(step) = read_part(parts[i]) {
            result.push(step);
            assert(step_views(result@) =~= before.push(step@));
        }
        i = i + 1;
    }
    assert(all.take(all.len() as int) =~= all);
    result
}

} // verus!
