//! The labels of the windows: `main` for the first, and `window-1`,
//! `window-2` and so on for the others.

use vstd::prelude::*;
use vstd::string::*;

use crate::selection::texts;

verus! {

/// The label of the first window.
pub open spec fn main_label() -> Seq<char> {
    "main"@
}

/// The character of a decimal digit.
pub open spec fn digit_char(d: nat) -> char {
    (('0' as u8) + d) as char
}

/// A number in decimal digits, without leading zeros.
pub open spec fn decimal(n: nat) -> Seq<char>
    decreases n,
{
    if n < 10 {
        seq![digit_char(n)]
    } else {
        decimal(n / 10).push(digit_char(n % 10))
    }
}

/// The label of the window numbered `k`.
pub open spec fn window_label(k: nat) -> Seq<char> {
    "window-"@ + decimal(k)
}

/// The label for a new window, `existing` being the labels in use: `main`
/// where it is free, else the numbered label of the least number from 1
/// that is free.
pub open spec fn is_next_label(existing: Seq<Seq<char>>, label: Seq<char>) -> bool {
    if !existing.contains(main_label()) {
        label == main_label()
    } else {
        exists|k: nat|
            1 <= k && label == #[trigger] window_label(k) && !existing.contains(label)
                && forall|j: nat| 1 <= j < k ==> existing.contains(#[trigger] window_label(j))
    }
}

/// A window of the program: its label, and whether it has the focus.
#[derive(Debug)]
pub struct WindowFocus {
    pub label: String,
    pub focused: bool,
}

/// The window that a command applies to: the first of `windows` that has
/// the focus, or else the window `main`.
pub open spec fn is_target(windows: Seq<WindowFocus>, label: Seq<char>) -> bool {
    ||| exists|i: int|
        0 <= i < windows.len() && (#[trigger] windows[i]).focused && windows[i].label@ == label
            && forall|j: int| 0 <= j < i ==> !(#[trigger] windows[j]).focused
    ||| {
        &&& forall|i: int| 0 <= i < windows.len() ==> !(#[trigger] windows[i]).focused
        &&& label == main_label()
        &&& exists|i: int| 0 <= i < windows.len() && (#[trigger] windows[i]).label@ == label
    }
}

/// The text of one decimal digit.
fn digit_text(d: u64) -> (s: &'static str)
    requires
        d < 10,
    ensures
        s@ == seq![digit_char(d as nat)],
{
    proof {
        reveal_strlit("0");
        reveal_strlit("1");
        reveal_strlit("2");
        reveal_strlit("3");
        reveal_strlit("4");
        reveal_strlit("5");
        reveal_strlit("6");
        reveal_strlit("7");
        reveal_strlit("8");
        reveal_strlit("9");
    }
    let s = if d == 0 {
        "0"
    } else if d == 1 {
        "1"
    } else if d == 2 {
        "2"
    } else if d == 3 {
        "3"
    } else if d == 4 {
        "4"
    } else if d == 5 {
        "5"
    } else if d == 6 {
        "6"
    } else if d == 7 {
        "7"
    } else if d == 8 {
        "8"
    } else {
        "9"
    };
    assert(s@ =~= seq![digit_char(d as nat)]);
    s
}

/// A number in decimal digits.
pub fn decimal_text(n: u64) -> (s: String)
    ensures
        s@ == decimal(n as nat),
    decreases n,
{
    if n < 10 {
        String::from_str(digit_text(n))
    } else {
        let s = decimal_text(n / 10).concat(digit_text(n % 10));
        assert(s@ =~= decimal((n / 10) as nat).push(digit_char((n % 10) as nat)));
        s
    }
}

/// The label of the window numbered `k`.
pub fn numbered_label(k: u64) -> (s: String)
    ensures
        s@ == window_label(k as nat),
{
    String::from_str("window-").concat(decimal_text(k).as_str())
}

/// Whether `label` is among `existing`.
pub fn label_in_use(existing: &Vec<String>, label: &String) -> (r: bool)
    ensures
        r == texts(existing@).contains(label@),
{
    let mut i: usize = 0;
    while i < existing.len()
        invariant
            i <= existing@.len(),
            forall|j: int| 0 <= j < i ==> #[trigger] texts(existing@)[j] != label@,
        decreases existing@.len() - i,
    {
        if existing[i] == *label {
            assert(texts(existing@)[i as int] == label@);
            return true;
        }
        i = i + 1;
    }
    false
}

/// The label of the window that a command applies to: the first of
/// `windows` that has the focus, or else `main` where there is such a
/// window. There is none where no window has the focus and none is `main`.
pub fn focused_window(windows: &Vec<WindowFocus>) -> (r: Option<String>)
    ensures
        match r {
            Some(label) => is_target(windows@, label@),
            None => forall|i: int|
                0 <= i < windows@.len() ==> !(#[trigger] windows@[i]).focused && windows@[i].label@
                    != main_label(),
        },
{
    let mut i: usize = 0;
    while i < windows.len()
        invariant
            i <= windows@.len(),
            forall|j: int| 0 <= j < i ==> !(#[trigger] windows@[j]).focused,
        decreases windows@.len() - i,
    {
        if windows[i].focused {
            return Some(windows[i].label.clone());
        }
        i = i + 1;
    }
    let first = String::from_str("main");
    let mut k: usize = 0;
    while k < windows.len()
        invariant
            first@ == main_label(),
            k <= windows@.len(),
            forall|j: int| 0 <= j < windows@.len() ==> !(#[trigger] windows@[j]).focused,
            forall|j: int| 0 <= j < k ==> (#[trigger] windows@[j]).label@ != main_label(),
        decreases windows@.len() - k,
    {
        if windows[k].label == first {
            return Some(first);
        }
        k = k + 1;
    }
    None
}

/// The label for a new window, `existing` being the labels in use. There
/// is none only where `main` and every numbered label that the machine can
/// count to are in use.
pub fn next_window_label(existing: &Vec<String>) -> (r: Option<String>)
    ensures
        match r {
            Some(label) => is_next_label(texts(existing@), label@),
            None => texts(existing@).contains(main_label()) && forall|j: nat|
                1 <= j < u64::MAX ==> texts(existing@).contains(#[trigger] window_label(j)),
        },
{
    let first = String::from_str("main");
    if !label_in_use(existing, &first) {
        return Some(first);
    }
    let mut k: u64 = 1;
    while k < u64::MAX
        invariant
            1 <= k <= u64::MAX,
            texts(existing@).contains(main_label()),
            forall|j: nat| 1 <= j < k ==> texts(existing@).contains(#[trigger] window_label(j)),
        decreases u64::MAX - k,
    {
        let candidate = numbered_label(k);
        if !label_in_use(existing, &candidate) {
            assert(candidate@ == window_label(k as nat));
            return Some(candidate);
        }
        k = k + 1;
    }
    None
}

} // verus!
