use vstd::prelude::*;

verus! {

/// Linux input code of the left Ctrl key.
pub const KEY_LEFTCTRL: u16 = 29;

/// Linux input code of the left Shift key.
pub const KEY_LEFTSHIFT: u16 = 42;

/// Linux input code of the V key.
pub const KEY_V: u16 = 47;

/// Linux input code of the Backspace key.
pub const KEY_BACKSPACE: u16 = 14;

/// Linux input code of the Enter key.
pub const KEY_ENTER: u16 = 28;

/// Wait after writing the clipboard, so that the target sees the new text.
pub const SETTLE_DELAY_MS: u64 = 50;

/// Wait between pressing and releasing a key combination.
pub const KEY_DELAY_MS: u64 = 10;

/// One step of a simulated key combination.
#[derive(Debug, Clone, Copy, PartialEq, Eq, Structural)]
pub enum KeyStep {
    Press(u16),
    /// Wait [`KEY_DELAY_MS`].
    Pause,
    Release(u16),
    /// Synchronization event that ends the combination.
    Sync,
}

/// Presses each key in order, pauses, releases the keys in reverse order and
/// synchronizes.
pub open spec fn is_combo(keys: Seq<u16>, steps: Seq<KeyStep>) -> bool {
    let n = keys.len() as int;
    &&& steps.len() == 2 * n + 2
    &&& forall|i: int| 0 <= i < n ==> #[trigger] steps[i] == KeyStep::Press(keys[i])
    &&& steps[n] == KeyStep::Pause
    &&& forall|j: int| 0 <= j < n ==> #[trigger] steps[n + 1 + j] == KeyStep::Release(keys[n - 1 - j])
    &&& steps[2 * n + 1] == KeyStep::Sync
}

/// The steps that simulate pressing `keys` together.
pub fn key_combo_steps(keys: &[u16]) -> (r: Vec<KeyStep>)
    requires
        keys@.len() < usize::MAX / 2,
    ensures
        is_combo(keys@, r@),
{
    let n = keys.len();
    let mut steps: Vec<KeyStep> = Vec::new();
    let mut i: usize = 0;
    while i < n
        invariant
            n == keys@.len(),
            i <= n,
            steps@.len() == i,
            forall|k: int| 0 <= k < i ==> #[trigger] steps@[k] == KeyStep::Press(keys@[k]),
        decreases n - i,
    {
        steps.push(KeyStep::Press(keys[i]));
        i = i + 1;
    }
    steps.push(KeyStep::Pause);
    let mut j: usize = 0;
    while j < n
        invariant
            n == keys@.len(),
            n < usize::MAX / 2,
            j <= n,
            steps@.len() == n + 1 + j,
            forall|k: int| 0 <= k < n ==> #[trigger] steps@[k] == KeyStep::Press(keys@[k]),
            steps@[n as int] == KeyStep::Pause,
            forall|k: int|
                0 <= k < j ==> #[trigger] steps@[n + 1 + k] == KeyStep::Release(keys@[n - 1 - k]),
        decreases n - j,
    {
        steps.push(KeyStep::Release(keys[n - 1 - j]));
        j = j + 1;
    }
    steps.push(KeyStep::Sync);
    steps
}

/// Keys of the paste combination for graphical applications: Ctrl+V.
pub fn paste_keys() -> (r: Vec<u16>)
    ensures
        r@ == seq![KEY_LEFTCTRL, KEY_V],
{
    let mut v: Vec<u16> = Vec::new();
    v.push(KEY_LEFTCTRL);
    v.push(KEY_V);
    v
}

/// Keys of the paste combination for terminals: Ctrl+Shift+V.
pub fn terminal_paste_keys() -> (r: Vec<u16>)
    ensures
        r@ == seq![KEY_LEFTCTRL, KEY_LEFTSHIFT, KEY_V],
{
    let mut v: Vec<u16> = Vec::new();
    v.push(KEY_LEFTCTRL);
    v.push(KEY_LEFTSHIFT);
    v.push(KEY_V);
    v
}

/// Keys that the virtual keyboard has to be able to emit.
pub fn registered_keys() -> (r: Vec<u16>)
    ensures
        r@ == seq![KEY_LEFTCTRL, KEY_LEFTSHIFT, KEY_V, KEY_BACKSPACE, KEY_ENTER],
{
    let mut v: Vec<u16> = Vec::new();
    v.push(KEY_LEFTCTRL);
    v.push(KEY_LEFTSHIFT);
    v.push(KEY_V);
    v.push(KEY_BACKSPACE);
    v.push(KEY_ENTER);
    v
}

} // verus!
