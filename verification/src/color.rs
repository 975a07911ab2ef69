//! The packed 32-bit word of the light actuator and its named fields.
//!
//! Byte 0 of the word, the most significant, holds the mode in its low two
//! bits, the looping flag in bit 6 and the white flag in bit 7. Bytes 1 to 3
//! hold the three channels of the mode. A channel is kept here as the byte
//! that the word carries for it, 255 standing for full scale; the time
//! channel, which the word carries in the one-byte duration format, is kept
//! in quarters of a second.

use vstd::prelude::*;
use crate::microfloat::{compressed, expanded, lemma_code_round_trip};
use crate::text::is_text;

verus! {

/// Bit of byte 0 that marks the light as white.
pub const FLAG_WHITE: u8 = 0x80;

/// Bit of byte 0 that marks the hue as cycling over time.
pub const FLAG_LOOPING: u8 = 0x40;

/// The bits of byte 0 that select the mode.
pub const MODE_MASK: u8 = 0x03;

/// The bits of byte 0 that carry neither the mode nor a flag.
pub const RESERVED_MASK: u8 = 0x3c;

/// How the three channel bytes of a word are to be read.
#[derive(Clone, Copy, Debug, PartialEq, Eq, Structural)]
pub enum ColorMode {
    /// Red, green, blue.
    Rgb,
    /// Hue or cycle time, saturation, value.
    Hsv,
    /// As `Hsv`, at full brightness.
    HsvMax,
    /// The fourth bit pattern, to which no reading of the channels belongs.
    Undefined,
}

impl ColorMode {
    /// The mode that the low two bits of byte 0 select.
    pub open spec fn of_bits(head: u8) -> ColorMode {
        let bits = head & MODE_MASK;
        if bits == 0 {
            ColorMode::Rgb
        } else if bits == 1 {
            ColorMode::Hsv
        } else if bits == 2 {
            ColorMode::HsvMax
        } else {
            ColorMode::Undefined
        }
    }

    /// The two bits that select this mode.
    pub open spec fn bits(self) -> u8 {
        match self {
            ColorMode::Rgb => 0,
            ColorMode::Hsv => 1,
            ColorMode::HsvMax => 2,
            ColorMode::Undefined => 3,
        }
    }

    /// Whether the channels are hue or time, saturation and value.
    pub open spec fn is_hsv(self) -> bool {
        self == ColorMode::Hsv || self == ColorMode::HsvMax
    }

    /// The mode that a name stands for. Every name but the three of the
    /// defined modes stands for the undefined mode.
    pub open spec fn named(name: Seq<char>) -> ColorMode {
        if name == "rgb"@ {
            ColorMode::Rgb
        } else if name == "hsv"@ {
            ColorMode::Hsv
        } else if name == "hsv-max"@ {
            ColorMode::HsvMax
        } else {
            ColorMode::Undefined
        }
    }

    /// The name under which the service knows this mode.
    pub open spec fn name_of(self) -> Seq<char> {
        match self {
            ColorMode::Rgb => "rgb"@,
            ColorMode::Hsv => "hsv"@,
            ColorMode::HsvMax => "hsv-max"@,
            ColorMode::Undefined => "undefined"@,
        }
    }

    /// Reads the mode from the name that the service uses for it.
    pub fn from_name(name: &str) -> (mode: ColorMode)
        ensures
            mode == ColorMode::named(name@),
    {
        if is_text(name, "rgb") {
            ColorMode::Rgb
        } else if is_text(name, "hsv") {
            ColorMode::Hsv
        } else if is_text(name, "hsv-max") {
            ColorMode::HsvMax
        } else {
            ColorMode::Undefined
        }
    }

    /// The name under which the service knows this mode.
    pub fn name(self) -> (name: &'static str)
        ensures
            name@ == self.name_of(),
    {
        match self {
            ColorMode::Rgb => "rgb",
            ColorMode::Hsv => "hsv",
            ColorMode::HsvMax => "hsv-max",
            ColorMode::Undefined => "undefined",
        }
    }

    /// Reads the mode from byte 0 of a word.
    pub fn from_bits(head: u8) -> (mode: ColorMode)
        ensures
            mode == ColorMode::of_bits(head),
    {
        let bits = head & MODE_MASK;
        if bits == 0 {
            ColorMode::Rgb
        } else if bits == 1 {
            ColorMode::Hsv
        } else if bits == 2 {
            ColorMode::HsvMax
        } else {
            ColorMode::Undefined
        }
    }

    /// The two bits that select this mode.
    pub fn to_bits(self) -> (bits: u8)
        ensures
            bits == self.bits(),
    {
        match self {
            ColorMode::Rgb => 0,
            ColorMode::Hsv => 1,
            ColorMode::HsvMax => 2,
            ColorMode::Undefined => 3,
        }
    }
}

/// The state of the light actuator.
#[derive(Clone, Copy, Debug, PartialEq, Eq, Structural)]
pub struct Color {
    pub mode: ColorMode,
    pub is_white: bool,
    pub is_looping: bool,
    /// Hue, 255 for a full turn.
    pub hue: u8,
    /// Duration of one hue cycle, in quarters of a second.
    pub time: u32,
    pub saturation: u8,
    pub value: u8,
    pub red: u8,
    pub green: u8,
    pub blue: u8,
}

/// Byte `index` of a word, byte 0 being the most significant.
pub open spec fn word_byte(word: u32, index: u32) -> u8 {
    ((word >> ((3 - index) * 8) as u32) & 0xff) as u8
}

/// The word made of four bytes, byte 0 being the most significant.
pub open spec fn word_of(b0: u8, b1: u8, b2: u8, b3: u8) -> u32 {
    ((b0 as u32) << 24) | ((b1 as u32) << 16) | ((b2 as u32) << 8) | (b3 as u32)
}

impl Color {
    /// The state before any word was read: no mode, no flag, all channels zero.
    pub open spec fn blank() -> Color {
        Color {
            mode: ColorMode::Undefined,
            is_white: false,
            is_looping: false,
            hue: 0,
            time: 0,
            saturation: 0,
            value: 0,
            red: 0,
            green: 0,
            blue: 0,
        }
    }

    /// This state after `word` was read into it. Mode and flags come from
    /// byte 0, the flags from the whole byte and not from the mode bits alone.
    /// Only the channels of the word's mode change; with the undefined mode
    /// none does.
    pub open spec fn updated(self, word: u32) -> Color {
        let head = word_byte(word, 0);
        let mode = ColorMode::of_bits(head);
        let looping = head & FLAG_LOOPING != 0;
        Color {
            mode: mode,
            is_white: head & FLAG_WHITE != 0,
            is_looping: looping,
            hue: if mode.is_hsv() && !looping {
                word_byte(word, 1)
            } else {
                self.hue
            },
            time: if mode.is_hsv() && looping {
                expanded(word_byte(word, 1))
            } else {
                self.time
            },
            saturation: if mode.is_hsv() {
                word_byte(word, 2)
            } else {
                self.saturation
            },
            value: if mode.is_hsv() {
                word_byte(word, 3)
            } else {
                self.value
            },
            red: if mode == ColorMode::Rgb {
                word_byte(word, 1)
            } else {
                self.red
            },
            green: if mode == ColorMode::Rgb {
                word_byte(word, 2)
            } else {
                self.green
            },
            blue: if mode == ColorMode::Rgb {
                word_byte(word, 3)
            } else {
                self.blue
            },
        }
    }

    /// The state that a word stands for.
    pub open spec fn decoded(word: u32) -> Color {
        Color::blank().updated(word)
    }

    /// Byte 0 of the word for this state.
    pub open spec fn head(self) -> u8 {
        self.mode.bits() | (if self.is_white {
            FLAG_WHITE
        } else {
            0
        }) | (if self.is_looping {
            FLAG_LOOPING
        } else {
            0
        })
    }

    /// The word for this state, which only a state with a defined mode has.
    pub open spec fn packed(self) -> Option<u32> {
        match self.mode {
            ColorMode::Rgb => Some(word_of(self.head(), self.red, self.green, self.blue)),
            ColorMode::Hsv | ColorMode::HsvMax => Some(
                word_of(
                    self.head(),
                    if self.is_looping {
                        compressed(self.time)
                    } else {
                        self.hue
                    },
                    self.saturation,
                    self.value,
                ),
            ),
            ColorMode::Undefined => None,
        }
    }

    /// The state before any word was read.
    pub fn new() -> (color: Color)
        ensures
            color == Color::blank(),
    {
        Color {
            mode: ColorMode::Undefined,
            is_white: false,
            is_looping: false,
            hue: 0,
            time: 0,
            saturation: 0,
            value: 0,
            red: 0,
            green: 0,
            blue: 0,
        }
    }

    /// Decodes a word read from the peripheral.
    pub fn from_raw(word: u32) -> (color: Color)
        ensures
            color == Color::decoded(word),
    {
        let mut color = Color::new();
        color.update(word);
        color
    }

    /// Reads a word from the peripheral into this state.
    pub fn update(&mut self, word: u32)
        ensures
            *final(self) == old(self).updated(word),
    {
        let head = ((word >> 24) & 0xff) as u8;
        let first = ((word >> 16) & 0xff) as u8;
        let second = ((word >> 8) & 0xff) as u8;
        let third = (word & 0xff) as u8;
        proof {
            assert(word >> 0 == word) by (bit_vector);
            assert(head == word_byte(word, 0));
            assert(first == word_byte(word, 1));
            assert(second == word_byte(word, 2));
            assert(third == word_byte(word, 3));
        }
        let mode = ColorMode::from_bits(head);
        self.mode = mode;
        self.is_white = head & FLAG_WHITE != 0;
        self.is_looping = head & FLAG_LOOPING != 0;
        match mode {
            ColorMode::Rgb => {
                self.red = first;
                self.green = second;
                self.blue = third;
            },
            ColorMode::Hsv | ColorMode::HsvMax => {
                if self.is_looping {
                    self.time = ufloat8::decode(first);
                } else {
                    self.hue = first;
                }
                self.saturation = second;
                self.value = third;
            },
            ColorMode::Undefined => {},
        }
    }

    /// Encodes this state for the peripheral. A state with the undefined
    /// mode has no word and gives `None`.
    pub fn raw(&self) -> (word: Option<u32>)
        ensures
            word == self.packed(),
    {
        let mut head = self.mode.to_bits();
        if self.is_white {
            head = head | FLAG_WHITE;
        }
        if self.is_looping {
            head = head | FLAG_LOOPING;
        }
        proof {
            let bits = self.mode.bits();
            assert(bits | 0 == bits) by (bit_vector);
            assert((bits | 0x80u8) | 0 == bits | 0x80u8) by (bit_vector);
            assert((bits | 0) | 0x40u8 == bits | 0x40u8) by (bit_vector);
            assert(head == self.head());
        }
        match self.mode {
            ColorMode::Rgb => Some(assemble(head, self.red, self.green, self.blue)),
            ColorMode::Hsv | ColorMode::HsvMax => {
                let first = if self.is_looping {
                    ufloat8::encode(self.time)
                } else {
                    self.hue
                };
                Some(assemble(head, first, self.saturation, self.value))
            },
            ColorMode::Undefined => None,
        }
    }
}

/// Puts four bytes together, byte 0 becoming the most significant.
fn assemble(b0: u8, b1: u8, b2: u8, b3: u8) -> (word: u32)
    ensures
        word == word_of(b0, b1, b2, b3),
{
    ((b0 as u32) << 24) | ((b1 as u32) << 16) | ((b2 as u32) << 8) | (b3 as u32)
}

/// Decoding a word and encoding the result gives the word back, for every
/// word with a defined mode and no reserved bit set in byte 0.
pub proof fn lemma_word_round_trip(word: u32)
    requires
        ColorMode::of_bits(word_byte(word, 0)) != ColorMode::Undefined,
        word_byte(word, 0) & RESERVED_MASK == 0,
    ensures
        Color::decoded(word).packed() == Some(word),
{
    let head = word_byte(word, 0);
    let first = word_byte(word, 1);
    let second = word_byte(word, 2);
    let third = word_byte(word, 3);
    let color = Color::decoded(word);
    lemma_code_round_trip(first);
    assert(color.head() == head) by {
        let bits = color.mode.bits();
        let white: u8 = if color.is_white {
            0x80
        } else {
            0
        };
        let looping: u8 = if color.is_looping {
            0x40
        } else {
            0
        };
        assert((head & 0x80 == 0 || head & 0x80 == 0x80) && (head & 0x40 == 0 || head & 0x40
            == 0x40) && head & 0x03 <= 3) by (bit_vector);
        assert(bits | white | looping == head) by (bit_vector)
            requires
                bits == head & 0x03,
                white == head & 0x80,
                looping == head & 0x40,
                head & 0x3c == 0,
        ;
    }
    assert(word_of(head, first, second, third) == word) by (bit_vector)
        requires
            head == word_byte(word, 0),
            first == word_byte(word, 1),
            second == word_byte(word, 2),
            third == word_byte(word, 3),
    ;
}

/// Every mode is the mode that its name stands for.
pub proof fn lemma_mode_name_round_trip(mode: ColorMode)
    ensures
        ColorMode::named(mode.name_of()) == mode,
{
    reveal_strlit("rgb");
    reveal_strlit("hsv");
    reveal_strlit("hsv-max");
    reveal_strlit("undefined");
    assert("rgb"@.len() == 3 && "hsv"@.len() == 3 && "hsv-max"@.len() == 7 && "undefined"@.len()
        == 9);
    assert("rgb"@[0] == 'r' && "hsv"@[0] == 'h');
}

/// Encoding a state with a defined mode and decoding the word gives back
/// the mode, the flags and the channels of the mode. The cycle time comes
/// back as the number that its code stands for.
pub proof fn lemma_state_round_trip(color: Color)
    requires
        color.mode != ColorMode::Undefined,
    ensures
        ({
            let back = Color::decoded(color.packed().unwrap());
            &&& back.mode == color.mode
            &&& back.is_white == color.is_white
            &&& back.is_looping == color.is_looping
            &&& color.mode == ColorMode::Rgb ==> back.red == color.red && back.green
                == color.green && back.blue == color.blue
            &&& color.mode.is_hsv() ==> back.saturation == color.saturation && back.value
                == color.value
            &&& color.mode.is_hsv() && !color.is_looping ==> back.hue == color.hue
            &&& color.mode.is_hsv() && color.is_looping ==> back.time == expanded(
                compressed(color.time),
            )
        }),
{
    let bits = color.mode.bits();
    let white: u8 = if color.is_white {
        0x80
    } else {
        0
    };
    let looping: u8 = if color.is_looping {
        0x40
    } else {
        0
    };
    let head = bits | white | looping;
    assert(head & 0x03 == bits && (head & 0x80 != 0 <==> white != 0) && (head & 0x40 != 0
        <==> looping != 0)) by (bit_vector)
        requires
            head == bits | white | looping,
            bits <= 3,
            white == 0 || white == 0x80,
            looping == 0 || looping == 0x40,
    ;
    assert forall|b0: u8, b1: u8, b2: u8, b3: u8|
        word_byte(#[trigger] word_of(b0, b1, b2, b3), 0) == b0 && word_byte(
            word_of(b0, b1, b2, b3),
            1,
        ) == b1 && word_byte(word_of(b0, b1, b2, b3), 2) == b2 && word_byte(
            word_of(b0, b1, b2, b3),
            3,
        ) == b3 by {
        assert(word_byte(word_of(b0, b1, b2, b3), 0) == b0 && word_byte(
            word_of(b0, b1, b2, b3),
            1,
        ) == b1 && word_byte(word_of(b0, b1, b2, b3), 2) == b2 && word_byte(
            word_of(b0, b1, b2, b3),
            3,
        ) == b3) by (bit_vector);
    }
}

} // verus!
