//! Game inputs, packed into one number each.
use crate::button::{Button, ButtonChange, BUTTON_COUNT};
use crate::time::{max_nanos, InGameTime, NANOS_PER_MILLI, NANOS_PER_SEC};
use vstd::prelude::*;

verus! {

/// Inputs of a game, each with the time at which it took effect.
pub type UncompressedInputHistory = Vec<(InGameTime, ButtonChange)>;

/// How many different numbers the lowest bits of a packed input can hold.
pub const BUTTON_CHANGE_CODES: u128 = 32;

/// Inputs of a game, each packed into one number: the whole milliseconds since
/// the previous input above [`CompressedInputHistory::BUTTON_CHANGE_BITSIZE`]
/// bits for the button change.
#[derive(PartialEq, Eq, PartialOrd, Ord, Hash, Clone, Debug, Default)]
pub struct CompressedInputHistory(pub Vec<u128>);

impl View for CompressedInputHistory {
    type V = Seq<u128>;

    open spec fn view(&self) -> Seq<u128> {
        self.0@
    }
}

/// The number that stands for a button change: twice the button's number, plus
/// one for a press.
pub open spec fn change_code(change: ButtonChange) -> nat {
    match change {
        ButtonChange::Release(b) => (2 * b.number()) as nat,
        ButtonChange::Press(b) => (2 * b.number() + 1) as nat,
    }
}

/// The button change that a number stands for.
pub open spec fn change_of_code(code: nat) -> ButtonChange {
    let b = Button::VARIANTS[(code / 2) as int];
    if code % 2 == 0 {
        ButtonChange::Release(b)
    } else {
        ButtonChange::Press(b)
    }
}

/// One packed input.
pub open spec fn packed(millis: nat, change: ButtonChange) -> nat {
    millis * BUTTON_CHANGE_CODES as nat + change_code(change)
}

/// The milliseconds in a packed input.
pub open spec fn packed_millis(i: u128) -> nat {
    (i / BUTTON_CHANGE_CODES) as nat
}

/// The button change in a packed input.
pub open spec fn packed_change(i: u128) -> ButtonChange {
    change_of_code((i % BUTTON_CHANGE_CODES) as nat)
}

/// Whether a number is a packed input: its milliseconds fit 64 bits and its
/// lowest bits name a button.
pub open spec fn is_packed(i: u128) -> bool {
    packed_millis(i) <= u64::MAX && (i % BUTTON_CHANGE_CODES) / 2 < BUTTON_COUNT
}

/// Whether every number is a packed input.
pub open spec fn all_packed(c: Seq<u128>) -> bool {
    forall|k: int| 0 <= k < c.len() ==> is_packed(#[trigger] c[k])
}

/// Whether every time in a history is well-formed.
pub open spec fn history_wf(h: Seq<(InGameTime, ButtonChange)>) -> bool {
    forall|k: int| 0 <= k < h.len() ==> (#[trigger] h[k]).0.wf()
}

/// The whole milliseconds between input `k` and the one before it, or the
/// start of the game.
pub open spec fn step_millis(h: Seq<(InGameTime, ButtonChange)>, k: int) -> nat {
    if k == 0 {
        h[0].0.millis()
    } else if h[k].0.nanos() >= h[k - 1].0.nanos() {
        ((h[k].0.nanos() - h[k - 1].0.nanos()) as nat) / NANOS_PER_MILLI as nat
    } else {
        0
    }
}

/// A history with every input packed.
pub open spec fn compressed(h: Seq<(InGameTime, ButtonChange)>) -> Seq<u128> {
    Seq::new(h.len(), |k: int| packed(step_millis(h, k), h[k].1) as u128)
}

/// The nanoseconds up to input `k`, counted up over the packed steps and
/// stopping at the longest representable time.
pub open spec fn replay_nanos(c: Seq<u128>, k: int) -> nat
    decreases k,
{
    let step = packed_millis(c[k]) * NANOS_PER_MILLI as nat;
    if k <= 0 {
        step
    } else if replay_nanos(c, k - 1) + step <= max_nanos() {
        replay_nanos(c, k - 1) + step
    } else {
        max_nanos()
    }
}

/// The well-formed time with a given number of nanoseconds.
pub open spec fn time_of_nanos(n: nat) -> InGameTime {
    InGameTime {
        secs: (n / NANOS_PER_SEC as nat) as u64,
        subsec_nanos: (n % NANOS_PER_SEC as nat) as u32,
    }
}

/// Packed inputs, unpacked again.
pub open spec fn decompressed(c: Seq<u128>) -> Seq<(InGameTime, ButtonChange)> {
    Seq::new(c.len(), |k: int| (time_of_nanos(replay_nanos(c, k)), packed_change(c[k])))
}

/// The button change that a number stands for has that number.
proof fn lemma_code_roundtrip(change: ButtonChange)
    ensures
        change_code(change) < 2 * BUTTON_COUNT,
        change_of_code(change_code(change)) == change,
{
    crate::button::lemma_variants_numbered(change.button(), 0);
}

/// A number that names a button change is the one of that change.
proof fn lemma_code_roundtrip_back(code: nat)
    requires
        code < 2 * BUTTON_COUNT,
    ensures
        change_code(change_of_code(code)) == code,
{
    crate::button::lemma_variants_numbered(Button::MoveLeft, (code / 2) as int);
}

/// What is packed can be read off the packed number.
proof fn lemma_packed(millis: nat, change: ButtonChange)
    requires
        millis <= u64::MAX * 1_001,
    ensures
        packed(millis, change) <= u128::MAX,
        packed_millis(packed(millis, change) as u128) == millis,
        packed_change(packed(millis, change) as u128) == change,
        (packed(millis, change) as u128 % BUTTON_CHANGE_CODES) / 2 < BUTTON_COUNT,
        is_packed(packed(millis, change) as u128) == (millis <= u64::MAX),
{
    lemma_code_roundtrip(change);
}

/// Steps of a well-formed history are short enough to be packed.
proof fn lemma_step_bound(h: Seq<(InGameTime, ButtonChange)>, k: int)
    requires
        history_wf(h),
        0 <= k < h.len(),
    ensures
        step_millis(h, k) <= u64::MAX * 1_001,
{
    assert(h[k].0.wf());
}

/// Time counted up over packed steps stays representable.
proof fn lemma_replay_bound(c: Seq<u128>, k: int)
    requires
        0 <= k < c.len(),
        all_packed(c),
    ensures
        replay_nanos(c, k) <= max_nanos(),
    decreases k,
{
    assert(is_packed(c[k]));
    if k > 0 {
        lemma_replay_bound(c, k - 1);
    }
}

impl CompressedInputHistory {
    /// How many bits a packed button change takes: one for press or release,
    /// four for the button.
    pub const BUTTON_CHANGE_BITSIZE: usize = 5;

    /// Packs a history.
    pub fn new(game_input_history: &UncompressedInputHistory) -> (r: CompressedInputHistory)
        requires
            history_wf(game_input_history@),
        ensures
            r@ == compressed(game_input_history@),
    {
        let mut compressed_inputs: Vec<u128> = Vec::new();
        for k in 0..game_input_history.len()
            invariant
                history_wf(game_input_history@),
                compressed_inputs@ == compressed(game_input_history@).take(k as int),
        {
            let (update_time, button_change) = game_input_history[k];
            assert(game_input_history@[k as int].0.wf());
            let step: InGameTime = if k == 0 {
                update_time
            } else {
                assert(game_input_history@[k - 1].0.wf());
                update_time.saturating_sub(game_input_history[k - 1].0)
            };
            proof {
                lemma_step_bound(game_input_history@, k as int);
            }
            compressed_inputs.push(Self::compress_input((step, button_change)));
        }
        CompressedInputHistory(compressed_inputs)
    }

    /// Unpacks the inputs.
    pub fn decompress(&self) -> (r: UncompressedInputHistory)
        requires
            all_packed(self@),
        ensures
            r@ == decompressed(self@),
    {
        let mut decompressed_inputs: UncompressedInputHistory = Vec::new();
        let mut update_time: InGameTime = InGameTime::zero();
        for k in 0..self.0.len()
            invariant
                all_packed(self@),
                update_time.wf(),
                k == 0 ==> update_time.nanos() == 0,
                k > 0 ==> update_time.nanos() == replay_nanos(self@, k - 1),
                decompressed_inputs@ == decompressed(self@).take(k as int),
        {
            assert(is_packed(self@[k as int]));
            let (time_diff, button_change) = Self::decompress_input(self.0[k]);
            proof {
                lemma_replay_bound(self@, k as int);
            }
            update_time = update_time.saturating_add(time_diff);
            decompressed_inputs.push((update_time, button_change));
        }
        decompressed_inputs
    }

    /// Whether the numbers can be unpacked.
    pub fn is_valid(&self) -> (b: bool)
        ensures
            b == all_packed(self@),
    {
        for k in 0..self.0.len()
            invariant
                forall|j: int| 0 <= j < k ==> is_packed(#[trigger] self@[j]),
        {
            let i: u128 = self.0[k];
            if i / BUTTON_CHANGE_CODES > u64::MAX as u128 || (i % BUTTON_CHANGE_CODES) / 2
                >= BUTTON_COUNT as u128 {
                assert(!is_packed(self@[k as int]));
                return false;
            }
        }
        true
    }

    /// Packs one input.
    pub fn compress_input(input: (InGameTime, ButtonChange)) -> (i: u128)
        requires
            input.0.wf(),
        ensures
            i == packed(input.0.millis(), input.1),
    {
        let (update_target_time, button_change) = input;
        let millis: u128 = update_target_time.as_millis();
        let bc_bits: u8 = Self::compress_buttonchange(&button_change);
        millis * BUTTON_CHANGE_CODES + bc_bits as u128
    }

    /// Unpacks one input.
    pub fn decompress_input(i: u128) -> (r: (InGameTime, ButtonChange))
        requires
            is_packed(i),
        ensures
            r.0.wf(),
            r.0.nanos() == packed_millis(i) * NANOS_PER_MILLI,
            r.1 == packed_change(i),
    {
        let bc_bits: u8 = (i % BUTTON_CHANGE_CODES) as u8;
        let millis: u64 = (i / BUTTON_CHANGE_CODES) as u64;
        (InGameTime::from_millis(millis), Self::decompress_buttonchange(bc_bits))
    }

    /// The number that stands for a button change.
    pub fn compress_buttonchange(button_change: &ButtonChange) -> (b: u8)
        ensures
            b == change_code(*button_change),
            b < 2 * BUTTON_COUNT,
    {
        match button_change {
            ButtonChange::Release(button) => 2 * button.index(),
            ButtonChange::Press(button) => 2 * button.index() + 1,
        }
    }

    /// The button change that a number stands for.
    pub fn decompress_buttonchange(b: u8) -> (change: ButtonChange)
        requires
            b / 2 < BUTTON_COUNT,
        ensures
            change == change_of_code(b as nat),
    {
        let button = Button::VARIANTS[(b / 2) as usize];
        if b % 2 == 0 {
            ButtonChange::Release(button)
        } else {
            ButtonChange::Press(button)
        }
    }
}

/// Packing a history gives numbers that can be unpacked, exactly if every step
/// between inputs fits 64 bits of milliseconds.
pub proof fn law_compressed_is_packed(h: Seq<(InGameTime, ButtonChange)>)
    requires
        history_wf(h),
    ensures
        all_packed(compressed(h)) == (forall|k: int|
            0 <= k < h.len() ==> #[trigger] step_millis(h, k) <= u64::MAX),
{
    let c = compressed(h);
    assert forall|k: int| 0 <= k < h.len() implies is_packed(#[trigger] c[k]) == (step_millis(h, k)
        <= u64::MAX) by {
        lemma_step_bound(h, k);
        lemma_packed(step_millis(h, k), h[k].1);
    }
    if all_packed(c) {
        assert forall|k: int| 0 <= k < h.len() implies #[trigger] step_millis(h, k) <= u64::MAX by {
            assert(is_packed(c[k]));
        }
    }
}

/// Unpacking gives back the history that was packed, where its times are whole
/// milliseconds that never go backwards.
pub proof fn law_decompress_inverts_compress(h: Seq<(InGameTime, ButtonChange)>)
    requires
        history_wf(h),
        forall|k: int| 0 <= k < h.len() ==> (#[trigger] h[k]).0.is_whole_millis(),
        forall|j: int, k: int|
            0 <= j <= k < h.len() ==> (#[trigger] h[j]).0.nanos() <= (#[trigger] h[k]).0.nanos(),
        forall|k: int| 0 <= k < h.len() ==> #[trigger] step_millis(h, k) <= u64::MAX,
    ensures
        decompressed(compressed(h)) == h,
{
    let c = compressed(h);
    assert forall|k: int| 0 <= k < h.len() implies decompressed(c)[k] == #[trigger] h[k] by {
        lemma_replay_of_compressed(h, k);
        lemma_step_bound(h, k);
        lemma_packed(step_millis(h, k), h[k].1);
        assert(h[k].0.wf());
        crate::time::lemma_time_by_nanos(time_of_nanos(h[k].0.nanos()), h[k].0);
    }
    assert(decompressed(c) =~= h);
}

/// The distance between whole milliseconds is whole milliseconds.
proof fn lemma_whole_millis_apart(a: nat, b: nat)
    requires
        a <= b,
        a % 1_000_000 == 0,
        b % 1_000_000 == 0,
    ensures
        a + ((b - a) as nat) / 1_000_000 * 1_000_000 == b,
{
}

/// The milliseconds that were packed for input `k` are those since the one
/// before it.
proof fn lemma_compressed_step(h: Seq<(InGameTime, ButtonChange)>, k: int)
    requires
        history_wf(h),
        0 <= k < h.len(),
    ensures
        packed_millis(compressed(h)[k]) == step_millis(h, k),
{
    lemma_step_bound(h, k);
    lemma_packed(step_millis(h, k), h[k].1);
}

/// Counting up the steps of whole milliseconds gives back the times.
proof fn lemma_replay_of_compressed(h: Seq<(InGameTime, ButtonChange)>, k: int)
    requires
        history_wf(h),
        0 <= k < h.len(),
        forall|i: int| 0 <= i < h.len() ==> (#[trigger] h[i]).0.is_whole_millis(),
        forall|i: int, j: int|
            0 <= i <= j < h.len() ==> (#[trigger] h[i]).0.nanos() <= (#[trigger] h[j]).0.nanos(),
    ensures
        replay_nanos(compressed(h), k) == h[k].0.nanos(),
    decreases k,
{
    let now = h[k].0;
    assert(now.wf() && now.is_whole_millis());
    lemma_compressed_step(h, k);
    if k == 0 {
        lemma_whole_millis_apart(0, now.nanos());
    } else {
        let last = h[k - 1].0;
        assert(last.is_whole_millis() && last.nanos() <= now.nanos());
        lemma_replay_of_compressed(h, k - 1);
        lemma_whole_millis_apart(last.nanos(), now.nanos());
        assert(now.nanos() <= max_nanos());
    }
}

/// Packing and unpacking any history that never goes backwards keeps its
/// button changes and moves each input earlier, by less than one millisecond
/// for every input up to and including it.
pub proof fn law_compress_drift(h: Seq<(InGameTime, ButtonChange)>, k: int)
    requires
        history_wf(h),
        forall|i: int, j: int|
            0 <= i <= j < h.len() ==> (#[trigger] h[i]).0.nanos() <= (#[trigger] h[j]).0.nanos(),
        0 <= k < h.len(),
    ensures
        decompressed(compressed(h)).len() == h.len(),
        decompressed(compressed(h))[k].1 == h[k].1,
        decompressed(compressed(h))[k].0.wf(),
        decompressed(compressed(h))[k].0.nanos() <= h[k].0.nanos(),
        h[k].0.nanos() < decompressed(compressed(h))[k].0.nanos() + (k + 1) * NANOS_PER_MILLI,
{
    lemma_drift(h, k);
    lemma_step_bound(h, k);
    lemma_packed(step_millis(h, k), h[k].1);
    assert(h[k].0.wf());
}

proof fn lemma_drift(h: Seq<(InGameTime, ButtonChange)>, k: int)
    requires
        history_wf(h),
        forall|i: int, j: int|
            0 <= i <= j < h.len() ==> (#[trigger] h[i]).0.nanos() <= (#[trigger] h[j]).0.nanos(),
        0 <= k < h.len(),
    ensures
        replay_nanos(compressed(h), k) <= h[k].0.nanos(),
        h[k].0.nanos() < replay_nanos(compressed(h), k) + (k + 1) * NANOS_PER_MILLI,
    decreases k,
{
    lemma_step_bound(h, k);
    lemma_packed(step_millis(h, k), h[k].1);
    assert(h[k].0.wf());
    if k > 0 {
        lemma_drift(h, k - 1);
        assert(h[k - 1].0.wf());
    }
}

/// Packing gives back the numbers that were unpacked, where the times that
/// they add up to stay representable.
pub proof fn law_compress_inverts_decompress(c: Seq<u128>)
    requires
        all_packed(c),
        forall|k: int|
            0 < k < c.len() ==> #[trigger] replay_nanos(c, k) == replay_nanos(c, k - 1)
                + packed_millis(c[k]) * NANOS_PER_MILLI,
    ensures
        compressed(decompressed(c)) == c,
{
    let h = decompressed(c);
    assert forall|k: int| 0 <= k < c.len() implies compressed(h)[k] == #[trigger] c[k] by {
        lemma_replay_bound(c, k);
        assert(is_packed(c[k]));
        lemma_code_roundtrip_back((c[k] % BUTTON_CHANGE_CODES) as nat);
        if k > 0 {
            lemma_replay_bound(c, k - 1);
            assert(replay_nanos(c, k) == replay_nanos(c, k - 1) + packed_millis(c[k])
                * NANOS_PER_MILLI);
        }
        assert(step_millis(h, k) == packed_millis(c[k]));
    }
    assert(compressed(h) =~= c);
}

/// A packed input is the milliseconds since the one before it, shifted up by five bits,
/// with the number of its button in the upper four of them and, in the lowest, whether
/// the button goes down.
pub proof fn law_packed_input_tells_its_parts(h: Seq<(InGameTime, ButtonChange)>, k: int)
    requires
        history_wf(h),
        0 <= k < h.len(),
    ensures
        ({
            let i = compressed(h)[k];
            &&& compressed(h).len() == h.len()
            &&& i % 2 == 1 <==> h[k].1 is Press
            &&& i / 2 % 16 == match h[k].1 {
                ButtonChange::Press(b) => b.number(),
                ButtonChange::Release(b) => b.number(),
            }
            &&& k == 0 ==> i / 32 == h[0].0.nanos() / 1_000_000
            &&& k > 0 && h[k - 1].0.nanos() <= h[k].0.nanos() ==> i / 32 == (h[k].0.nanos()
                - h[k - 1].0.nanos()) / 1_000_000
            &&& k > 0 && h[k - 1].0.nanos() > h[k].0.nanos() ==> i / 32 == 0
        }),
{
    lemma_step_bound(h, k);
    lemma_packed(step_millis(h, k), h[k].1);
    lemma_compressed_step(h, k);
    lemma_code_roundtrip(h[k].1);
    let i = compressed(h)[k];
    let code = change_code(h[k].1);
    let millis = step_millis(h, k);
    assert(i == millis * 32 + code);
    assert(i % 2 == code % 2);
    assert(i / 2 == millis * 16 + code / 2);
    assert(i / 2 % 16 == code / 2);
}

} // verus!
