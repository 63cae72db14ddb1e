//! One frame of input for all players: a frame number, a size in bytes and
//! a fixed bit buffer.
use vstd::prelude::*;
use crate::bitvector::{bit_is_set, with_bit_set, with_bit_cleared};

verus! {

/// A frame number; `None` stands for "no frame".
pub type Frame = Option<usize>;

/// A frame number that is known to exist.
pub type FrameNum = usize;

/// Bytes of input per player.
pub const GAMEINPUT_MAX_BYTES: usize = 9;

/// Players whose input fits in one `GameInput`.
pub const GAMEINPUT_MAX_PLAYERS: usize = 2;

/// Bytes in an input buffer (`GAMEINPUT_MAX_BYTES * GAMEINPUT_MAX_PLAYERS`).
pub const INPUT_BUFFER_SIZE: usize = 18;

/// The raw input bytes of all players for one frame.
pub type InputBuffer = [u8; 18];

/// Input for one frame.
#[derive(Debug, Eq, PartialEq, Copy, Clone)]
pub struct GameInput {
    pub frame: Frame,
    pub size: usize,
    pub bits: [u8; 18],
}

/// The byte `'0'` that fills an erased input buffer.
pub open spec fn erased_bits() -> Seq<u8> {
    Seq::new(18, |i: int| 48u8)
}

/// The decimal digit `d` as a character.
pub open spec fn digit_char(d: nat) -> char {
    ((48 + d) as u8) as char
}

/// The decimal representation of `n`, without leading zeros.
pub open spec fn decimal(n: nat) -> Seq<char>
    decreases n,
{
    if n < 10 {
        seq![digit_char(n)]
    } else {
        decimal(n / 10).push(digit_char(n % 10))
    }
}

/// `n` in decimal, padded on the left to two characters.
pub open spec fn padded2(n: nat) -> Seq<char> {
    if n < 10 {
        seq![' '].add(decimal(n))
    } else {
        decimal(n)
    }
}

/// The indices of the set bits among the first `k` input bits, each padded
/// to two characters, in increasing order.
pub open spec fn set_bits_text(bits: Seq<u8>, k: int) -> Seq<char>
    decreases k,
{
    if k <= 0 {
        Seq::empty()
    } else {
        set_bits_text(bits, k - 1) + if bit_is_set(bits, k - 1) {
            padded2((k - 1) as nat)
        } else {
            Seq::empty()
        }
    }
}

/// The text `describe` gives: for an input with a frame, an opening
/// parenthesis with the frame (when asked for) and the size; then the
/// indices of the set bits within the input's size; then a closing
/// parenthesis.
pub open spec fn description(g: GameInput, show_frame: bool) -> Seq<char> {
    let head = match g.frame {
        Some(f) => if show_frame {
            "(frame:"@ + decimal(f as nat) + " size:"@ + decimal(g.size as nat)
        } else {
            "(size:"@ + decimal(g.size as nat)
        },
        None => Seq::empty(),
    };
    head + set_bits_text(g.bits_view(), g.size * 8) + seq![')']
}

/// `String::push`: appends the character `c`.
#[verifier::external_body]
fn push_char(s: &mut String, c: char)
    ensures
        final(s)@ == old(s)@.push(c),
{
    s.push(c);
}

/// `String::push_str`: appends the text `t`.
#[verifier::external_body]
fn push_text(s: &mut String, t: &str)
    ensures
        final(s)@ == old(s)@ + t@,
{
    s.push_str(t);
}

/// Appends `n` in decimal.
fn push_decimal(buf: &mut String, n: usize)
    ensures
        final(buf)@ == old(buf)@ + decimal(n as nat),
    decreases n,
{
    if n >= 10 {
        push_decimal(buf, n / 10);
    }
    let d: u8 = (n % 10) as u8;
    let c: char = (48u8 + d) as char;
    proof {
        assert(c == digit_char((n % 10) as nat));
    }
    let ghost mid = buf@;
    push_char(buf, c);
    proof {
        if n >= 10 {
            assert(mid == old(buf)@ + decimal((n / 10) as nat));
            assert(buf@ =~= old(buf)@ + decimal(n as nat));
        } else {
            assert(buf@ =~= old(buf)@ + decimal(n as nat));
        }
    }
}

impl GameInput {
    /// The input bytes.
    pub open spec fn bits_view(&self) -> Seq<u8> {
        self.bits@
    }

    /// The input `new` gives: no frame, size zero, all bits clear.
    pub open spec fn blank() -> GameInput {
        GameInput { frame: None, size: 0, bits: vstd::array::spec_array_fill_for_copy_type(0u8) }
    }

    /// An input with no frame, size zero and all bits clear.
    pub fn new() -> (g: GameInput)
        ensures
            g == GameInput::blank(),
            g.frame is None,
            g.size == 0,
            g.bits_view() == Seq::new(18, |i: int| 0u8),
    {
        let g = GameInput { frame: None, size: 0, bits: [0u8; 18] };
        assert(g.bits@ =~= Seq::new(18, |i: int| 0u8));
        g
    }

    /// An input for `frame` of `size` bytes per player, holding a copy of
    /// `bits`, or erased bits when none are given.
    pub fn init(frame: Frame, bits: Option<&[u8; 18]>, size: usize) -> (g: GameInput)
        requires
            size <= GAMEINPUT_MAX_BYTES,
        ensures
            g.frame == frame,
            g.size == size,
            g.bits_view() == match bits {
                Some(b) => b@,
                None => erased_bits(),
            },
    {
        match bits {
            Some(i_bits) => GameInput { frame, size, bits: *i_bits },
            None => {
                let g = GameInput { frame, size, bits: [48u8; 18] };
                assert(g.bits@ =~= erased_bits());
                g
            },
        }
    }

    /// Whether input bit `i` is set.
    pub fn value(&self, i: usize) -> (b: bool)
        requires
            i < INPUT_BUFFER_SIZE * 8,
        ensures
            b == bit_is_set(self.bits_view(), i as int),
    {
        let m: u8 = 1u8 << ((i % 8) as u8);
        (self.bits[i / 8] & m) != 0
    }

    /// Sets input bit `i`.
    pub fn set(&mut self, i: usize)
        requires
            i < INPUT_BUFFER_SIZE * 8,
        ensures
            final(self).bits_view() == with_bit_set(old(self).bits_view(), i as int),
            final(self).frame == old(self).frame,
            final(self).size == old(self).size,
    {
        let m: u8 = 1u8 << ((i % 8) as u8);
        self.bits[i / 8] = self.bits[i / 8] | m;
    }

    /// Clears input bit `i`.
    pub fn clear(&mut self, i: usize)
        requires
            i < INPUT_BUFFER_SIZE * 8,
        ensures
            final(self).bits_view() == with_bit_cleared(old(self).bits_view(), i as int),
            final(self).frame == old(self).frame,
            final(self).size == old(self).size,
    {
        let m: u8 = 1u8 << ((i % 8) as u8);
        self.bits[i / 8] = self.bits[i / 8] & !m;
    }

    /// Fills the input bytes with `'0'`.
    pub fn erase(&mut self)
        ensures
            final(self).bits_view() == erased_bits(),
            final(self).frame == old(self).frame,
            final(self).size == old(self).size,
    {
        self.bits = [48u8; 18];
        assert(self.bits@ =~= erased_bits());
    }

    /// A readable account of the input (see `description`).
    pub fn describe(&self, show_frame: bool) -> (text: String)
        requires
            self.size * 8 <= INPUT_BUFFER_SIZE * 8,
        ensures
            text@ == description(*self, show_frame),
    {
        let mut buf: String = String::new();
        if let Some(frame) = self.frame {
            if show_frame {
                push_text(&mut buf, "(frame:");
                push_decimal(&mut buf, frame);
                push_text(&mut buf, " size:");
                push_decimal(&mut buf, self.size);
            } else {
                push_text(&mut buf, "(size:");
                push_decimal(&mut buf, self.size);
            }
        }
        let ghost head = buf@;
        proof {
            assert(head == description(*self, show_frame).subrange(0, head.len() as int)) by {
                assert(description(*self, show_frame) =~= head + set_bits_text(self.bits_view(), self.size * 8) + seq![')']);
            }
        }
        let n = self.size * 8;
        let mut i: usize = 0;
        while i < n
            invariant
                0 <= i <= n,
                n == self.size * 8,
                n <= INPUT_BUFFER_SIZE * 8,
                buf@ == head + set_bits_text(self.bits_view(), i as int),
            decreases n - i,
        {
            if self.value(i) {
                if i < 10 {
                    push_char(&mut buf, ' ');
                }
                let ghost before = buf@;
                push_decimal(&mut buf, i);
                proof {
                    if i < 10 {
                        assert(buf@ =~= head + set_bits_text(self.bits_view(), i as int) + padded2(i as nat));
                    } else {
                        assert(buf@ =~= head + set_bits_text(self.bits_view(), i as int) + padded2(i as nat));
                    }
                }
            }
            proof {
                assert(head + set_bits_text(self.bits_view(), i as int + 1) =~= if bit_is_set(self.bits_view(), i as int) {
                    head + set_bits_text(self.bits_view(), i as int) + padded2(i as nat)
                } else {
                    head + set_bits_text(self.bits_view(), i as int)
                });
            }
            i = i + 1;
        }
        push_char(&mut buf, ')');
        proof {
            assert(buf@ =~= description(*self, show_frame));
        }
        buf
    }

    /// Logging of inputs goes nowhere.
    pub fn log(_prefix: &String, _show_frame: bool) {
    }

    /// Whether two inputs agree: in frame (unless `bitsonly`), in size and
    /// in every input byte.
    pub fn equal(&self, other: &GameInput, bitsonly: bool) -> (r: bool)
        ensures
            r == ((bitsonly || self.frame == other.frame) && self.size == other.size
                && self.bits_view() == other.bits_view()),
    {
        let frames_match = match (self.frame, other.frame) {
            (Some(a), Some(b)) => a == b,
            (None, None) => true,
            _ => false,
        };
        let mut bits_match = true;
        let mut k: usize = 0;
        while k < 18
            invariant
                0 <= k <= 18,
                bits_match == (forall|j: int| 0 <= j < k ==> self.bits@[j] == other.bits@[j]),
            decreases 18 - k,
        {
            if self.bits[k] != other.bits[k] {
                bits_match = false;
            }
            k = k + 1;
        }
        assert(bits_match == (self.bits@ =~= other.bits@));
        (bitsonly || frames_match) && self.size == other.size && bits_match
    }
}

} // verus!
