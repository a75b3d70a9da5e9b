//! Pixel-accurate rectangle geometry for drawing a piano keyboard.
//!
//! Given a range of MIDI key numbers and a target pixel width, the library
//! computes an ordered list of non-overlapping rectangles for the white and
//! black keys whose widths sum exactly to the requested width.  The hard part
//! is the two-stage integer width distribution: `base` divides the target
//! width among white keys and inter-key gaps, and `top` subdivides each white
//! key's width into its visible upper part, the neighbouring black key and
//! the gaps between them.

#![verifier::loop_isolation(false)]

use vstd::prelude::*;

pub mod base;
pub mod top;

verus! {

/// Whether a MIDI key number denotes a white key (C, D, E, F, G, A or B).
pub open spec fn spec_is_white(key: int) -> bool {
    let c = key % 12;
    c == 0 || c == 2 || c == 4 || c == 5 || c == 7 || c == 9 || c == 11
}

/// A configuration was rejected before any solving took place.
#[derive(Clone, Copy, Debug, PartialEq, Eq, Structural)]
pub enum ConfigurationError {
    /// The left key number is greater than the right key number.
    LeftKeyRightOfRightKey,
    /// The left key number is not a MIDI key number.
    LeftKeyOutOfRange,
    /// The right key number is not a MIDI key number.
    RightKeyOutOfRange,
    /// The keyboard would span less than one octave.
    SpanBelowOneOctave,
    /// The left boundary key is not a white key.
    LeftKeyNotWhite,
    /// The right boundary key is not a white key.
    RightKeyNotWhite,
    /// The requested number of keys is not a standard keyboard size.
    UnknownStandardSize,
    /// The requested width exceeds the representable maximum.
    WidthTooLarge,
}

/// The width-distribution search stalled or produced an impossible width.
///
/// This reports a defect of the heuristics for the given configuration, not
/// a recoverable input error; validated configurations are expected to solve.
#[derive(Clone, Copy, Debug, PartialEq, Eq, Structural)]
pub struct SolverInvariantError;

/// The central builder to create a keyboard.
#[derive(Debug)]
pub struct KeyboardBuilder {
    pub left_white_key: u8,
    pub right_white_key: u8,
    pub width: u16,
    /// dot height / dot width, scaled by 1024
    pub dot_ratio_1024: u16,

    pub white_key_wide_width_10um: u32,
    pub white_key_small_width_fb_10um: u32,
    pub white_key_small_width_ga_10um: u32,

    pub black_key_width_10um: u32,
    pub black_key_height_10um: u32,
    pub need_black_gap: bool,

    pub white_key_height_10um: u32,
    pub white_key_wide_height_10um: u32,
}

impl KeyboardBuilder {
    /// The physical proportion constants and the key-range invariants that
    /// every builder observes.  All physical measures are in units of 10 um,
    /// taken from a standard keyboard layout drawing.
    pub open spec fn wf(self) -> bool {
        &&& self.left_white_key <= self.right_white_key
        &&& self.right_white_key <= 127
        &&& self.right_white_key - self.left_white_key >= 11
        &&& spec_is_white(self.left_white_key as int)
        &&& spec_is_white(self.right_white_key as int)
        &&& self.width <= 65408
        &&& self.dot_ratio_1024 == 1024
        &&& self.white_key_wide_width_10um == 2215
        &&& self.white_key_small_width_fb_10um == 1283
        &&& self.white_key_small_width_ga_10um == 1308
        &&& self.black_key_width_10um == 1100
        &&& self.black_key_height_10um == 8000
        &&& self.white_key_height_10um == 12627
        &&& self.white_key_wide_height_10um == 4500
    }

    /// The default builder: an 88-key piano, 640 pixels wide, with a visual
    /// gap between white and black keys.
    pub fn new() -> (r: KeyboardBuilder)
        ensures
            r.wf(),
            r.left_white_key == 21,
            r.right_white_key == 108,
            r.width == 640,
            r.need_black_gap,
    {
        KeyboardBuilder {
            left_white_key: 21,
            right_white_key: 108,
            width: 640,
            dot_ratio_1024: 1024,

            white_key_wide_width_10um: 2215,
            white_key_small_width_fb_10um: 1283,
            white_key_small_width_ga_10um: 1308,

            black_key_width_10um: 1100,
            black_key_height_10um: 8000,
            need_black_gap: true,

            white_key_height_10um: 12627,
            white_key_wide_height_10um: 4500,
        }
    }

    /// The left/right key pair of a named standard size, if the size is one
    /// of 25, 37, 49, 61, 64, 73, 76 or 88 keys.
    pub open spec fn spec_standard_keys(nr_of_keys: u8) -> Option<(u8, u8)> {
        if nr_of_keys == 88 {
            Some((21u8, 108u8))
        } else if nr_of_keys == 76 {
            Some((21u8, 96u8))
        } else if nr_of_keys == 73 {
            Some((24u8, 96u8))
        } else if nr_of_keys == 64 {
            Some((33u8, 96u8))
        } else if nr_of_keys == 61 {
            Some((36u8, 96u8))
        } else if nr_of_keys == 49 {
            Some((36u8, 84u8))
        } else if nr_of_keys == 37 {
            Some((48u8, 84u8))
        } else if nr_of_keys == 25 {
            Some((48u8, 72u8))
        } else {
            None
        }
    }

    /// Define a standard piano with 25/37/49/61/64/73/76 or 88 keys.
    pub fn standard_piano(self, nr_of_keys: u8) -> (r: Result<
        KeyboardBuilder,
        ConfigurationError,
    >)
        ensures
            r == (match KeyboardBuilder::spec_standard_keys(nr_of_keys) {
                Some(pair) => Ok::<KeyboardBuilder, ConfigurationError>(
                    (KeyboardBuilder {
                        left_white_key: pair.0,
                        right_white_key: pair.1,
                        ..self
                    }),
                ),
                None => Err::<KeyboardBuilder, ConfigurationError>(
                    ConfigurationError::UnknownStandardSize,
                ),
            }),
            self.wf() ==> (r matches Ok(b) ==> b.wf()),
    {
        let (left, right): (u8, u8) = match nr_of_keys {
            88 => (21, 108),
            76 => (21, 96),
            73 => (24, 96),
            64 => (33, 96),
            61 => (36, 96),
            49 => (36, 84),
            37 => (48, 84),
            25 => (48, 72),
            _ => {
                return Err(ConfigurationError::UnknownStandardSize);
            },
        };
        Ok(KeyboardBuilder { left_white_key: left, right_white_key: right, ..self })
    }

    /// Select the key range of a Roland RD-64: A1 to C7.
    pub fn is_rd64(self) -> (r: KeyboardBuilder)
        ensures
            r == (KeyboardBuilder { left_white_key: 33u8, right_white_key: 96u8, ..self }),
            self.wf() ==> r.wf(),
    {
        KeyboardBuilder { left_white_key: 33, right_white_key: 96, ..self }
    }

    /// The validation verdict for a requested pair of boundary keys.
    pub open spec fn spec_check_keys(left: u8, right: u8) -> Result<(), ConfigurationError> {
        if left > right {
            Err(ConfigurationError::LeftKeyRightOfRightKey)
        } else if left > 127 {
            Err(ConfigurationError::LeftKeyOutOfRange)
        } else if right > 127 {
            Err(ConfigurationError::RightKeyOutOfRange)
        } else if right - left < 11 {
            Err(ConfigurationError::SpanBelowOneOctave)
        } else if !spec_is_white(left as int) {
            Err(ConfigurationError::LeftKeyNotWhite)
        } else if !spec_is_white(right as int) {
            Err(ConfigurationError::RightKeyNotWhite)
        } else {
            Ok(())
        }
    }

    /// The keys are defined by MIDI key codes, in range 0..128, with 0
    /// representing C of octave -1.  Both boundary keys must be white and at
    /// least one octave apart.
    pub fn set_most_left_right_white_keys(self, left_white_key: u8, right_white_key: u8) -> (r:
        Result<KeyboardBuilder, ConfigurationError>)
        ensures
            r == (match KeyboardBuilder::spec_check_keys(left_white_key, right_white_key) {
                Ok(()) => Ok::<KeyboardBuilder, ConfigurationError>(
                    (KeyboardBuilder {
                        left_white_key: left_white_key,
                        right_white_key: right_white_key,
                        ..self
                    }),
                ),
                Err(e) => Err::<KeyboardBuilder, ConfigurationError>(e),
            }),
            self.wf() ==> (r matches Ok(b) ==> b.wf()),
    {
        if left_white_key > right_white_key {
            Err(ConfigurationError::LeftKeyRightOfRightKey)
        } else if left_white_key > 127 {
            Err(ConfigurationError::LeftKeyOutOfRange)
        } else if right_white_key > 127 {
            Err(ConfigurationError::RightKeyOutOfRange)
        } else if right_white_key - left_white_key < 11 {
            Err(ConfigurationError::SpanBelowOneOctave)
        } else if !KeyboardBuilder::is_white(left_white_key) {
            Err(ConfigurationError::LeftKeyNotWhite)
        } else if !KeyboardBuilder::is_white(right_white_key) {
            Err(ConfigurationError::RightKeyNotWhite)
        } else {
            Ok(
                KeyboardBuilder {
                    left_white_key: left_white_key,
                    right_white_key: right_white_key,
                    ..self
                },
            )
        }
    }

    /// Sets the desired keyboard width in pixels.  Widths above 65408 would
    /// overflow the pixel arithmetic and are rejected.
    pub fn set_width(self, width: u16) -> (r: Result<KeyboardBuilder, ConfigurationError>)
        ensures
            r == (if width > 65408 {
                Err::<KeyboardBuilder, ConfigurationError>(ConfigurationError::WidthTooLarge)
            } else {
                Ok::<KeyboardBuilder, ConfigurationError>(
                    (KeyboardBuilder { width: width, ..self }),
                )
            }),
            self.wf() ==> (r matches Ok(b) ==> b.wf()),
    {
        if width > 65535 - 127 {
            Err(ConfigurationError::WidthTooLarge)
        } else {
            Ok(KeyboardBuilder { width: width, ..self })
        }
    }

    /// Selects whether a visual gap separates the white keys from the black
    /// keys.
    pub fn white_black_gap_present(self, gap_present: bool) -> (r: KeyboardBuilder)
        ensures
            r == (KeyboardBuilder { need_black_gap: gap_present, ..self }),
            self.wf() ==> r.wf(),
    {
        KeyboardBuilder { need_black_gap: gap_present, ..self }
    }

    /// Classifies a MIDI key number as white or black.
    pub fn is_white(key: u8) -> (r: bool)
        ensures
            r == spec_is_white(key as int),
    {
        match key % 12 {
            0 | 2 | 4 | 5 | 7 | 9 | 11 => true,
            _ => false,
        }
    }
}

/// An axis-aligned rectangle in pixel coordinates.
#[derive(Clone, Copy, Debug, PartialEq, Eq, Structural)]
pub struct Rectangle {
    pub x: u16,
    pub y: u16,
    pub width: u16,
    pub height: u16,
}

/// One drawable element of the keyboard.
///
/// A white key consists of up to three rectangles: the wide lower part, the
/// small upper part next to the black keys, and, for the outermost keys, a
/// blind part standing in for a missing black key.  A black key is a single
/// rectangle.
#[derive(Clone, Copy, Debug, PartialEq, Eq)]
pub enum Element {
    WhiteKey { wide: Rectangle, small: Rectangle, blind: Option<Rectangle> },
    BlackKey(Rectangle),
}

/// The vertical pixel geometry shared by all elements.
pub ghost struct Geometry {
    pub key_gap: int,
    pub black_gap: int,
    pub black_key_height: int,
    pub white_key_wide_height: int,
    pub height: int,
}

/// The vertical geometry for a keyboard of `n` white keys, or `None` where
/// a height would not fit 16 bits.
pub open spec fn spec_geometry(kb: KeyboardBuilder, n: int) -> Option<Geometry> {
    if n <= 0 {
        None
    } else {
        let w = kb.width as int;
        let key_gap_10um = kb.white_key_height_10um as int - kb.black_key_height_10um as int
            - kb.white_key_wide_height_10um as int;
        let keyboard_width_10um = (kb.white_key_wide_width_10um as int + key_gap_10um) * n
            + key_gap_10um;
        let key_gap = (w * key_gap_10um + keyboard_width_10um / 2) / keyboard_width_10um;
        let black_gap: int = if kb.need_black_gap {
            key_gap
        } else {
            0
        };
        if w < key_gap * (n + 1) {
            None
        } else {
            let max_pure = w - key_gap * (n + 1);
            let wkww = max_pure / n;
            let black_key_height = (wkww * kb.black_key_height_10um as int * 1024
                + kb.white_key_wide_width_10um as int / 2) / (kb.white_key_wide_width_10um as int)
                / (kb.dot_ratio_1024 as int);
            let white_key_wide_height = (wkww * kb.white_key_wide_height_10um as int
                + kb.white_key_wide_width_10um as int / 2) / (
            kb.white_key_wide_width_10um as int);
            let height = 2 * key_gap + black_gap + black_key_height + white_key_wide_height;
            if !(0 <= key_gap <= 65535 && 0 <= black_key_height <= 65535 && 0
                <= white_key_wide_height <= 65535 && 0 <= height <= 65535) {
                None
            } else {
                Some(
                    Geometry {
                        key_gap: key_gap,
                        black_gap: black_gap,
                        black_key_height: black_key_height,
                        white_key_wide_height: white_key_wide_height,
                        height: height,
                    },
                )
            }
        }
    }
}

/// The elements drawn for one white key unit at cursor position `x`: the
/// white key itself and, for all but the last key, the black key standing to
/// its right.  `None` where a rectangle would not fit 16 bits or a blind
/// width would be negative.
pub open spec fn key_elements(
    t: crate::top::TopModel,
    g: Geometry,
    u: crate::base::ResultElement,
    x: int,
    i: int,
    len: int,
) -> Option<Seq<Element>> {
    match u {
        crate::base::ResultElement::Key(w, k) => {
            let tr = crate::top::spec_top_for(t, u);
            let wide = Rectangle {
                x: x as u16,
                y: (g.black_gap + g.black_key_height + g.key_gap) as u16,
                width: w,
                height: g.white_key_wide_height as u16,
            };
            let upper_h = (g.black_gap + g.black_key_height) as u16;
            match tr {
                crate::top::TopResultElement::WhiteGapBlack(sw, sg, blk) => {
                    if i == len - 2 && !(sw <= w && x + sw <= 65535) {
                        None
                    } else if i < len - 2 && !(x + sw + sg <= 65535) {
                        None
                    } else {
                        let small = Rectangle {
                            x: x as u16,
                            y: g.key_gap as u16,
                            width: sw,
                            height: upper_h,
                        };
                        let blind: Option<Rectangle> = if i == len - 2 {
                            Some(
                                Rectangle {
                                    x: (x + sw) as u16,
                                    y: g.key_gap as u16,
                                    width: (w - sw) as u16,
                                    height: upper_h,
                                },
                            )
                        } else {
                            None
                        };
                        let white = Element::WhiteKey { wide: wide, small: small, blind: blind };
                        if i < len - 2 {
                            Some(
                                seq![
                                    white,
                                    Element::BlackKey(
                                        (Rectangle {
                                            x: (x + sw + sg) as u16,
                                            y: g.key_gap as u16,
                                            width: blk,
                                            height: g.black_key_height as u16,
                                        }),
                                    ),
                                ],
                            )
                        } else {
                            Some(seq![white])
                        }
                    }
                },
                crate::top::TopResultElement::BlindWhiteGapBlack(bl, sw, sg, blk) => {
                    if !(x + bl <= 65535) {
                        None
                    } else if i != 1 && i == len - 2 && !(sw + sg <= w && x + sw + sg <= 65535) {
                        None
                    } else if i < len - 2 && !(x + bl + sw + sg <= 65535) {
                        None
                    } else {
                        let small = Rectangle {
                            x: (x + bl) as u16,
                            y: g.key_gap as u16,
                            width: sw,
                            height: upper_h,
                        };
                        let blind: Option<Rectangle> = if i == 1 {
                            Some(
                                Rectangle {
                                    x: x as u16,
                                    y: g.key_gap as u16,
                                    width: bl,
                                    height: upper_h,
                                },
                            )
                        } else if i == len - 2 {
                            Some(
                                Rectangle {
                                    x: (x + sw + sg) as u16,
                                    y: g.key_gap as u16,
                                    width: (w - sw - sg) as u16,
                                    height: upper_h,
                                },
                            )
                        } else {
                            None
                        };
                        let white = Element::WhiteKey { wide: wide, small: small, blind: blind };
                        if i < len - 2 {
                            Some(
                                seq![
                                    white,
                                    Element::BlackKey(
                                        (Rectangle {
                                            x: (x + bl + sw + sg) as u16,
                                            y: g.key_gap as u16,
                                            width: blk,
                                            height: g.black_key_height as u16,
                                        }),
                                    ),
                                ],
                            )
                        } else {
                            Some(seq![white])
                        }
                    }
                },
                crate::top::TopResultElement::BlindWhite(bl, sw) => {
                    if !(x + bl <= 65535) {
                        None
                    } else {
                        let small = Rectangle {
                            x: (x + bl) as u16,
                            y: g.key_gap as u16,
                            width: sw,
                            height: upper_h,
                        };
                        let blind: Option<Rectangle> = if i == 1 {
                            Some(
                                Rectangle {
                                    x: x as u16,
                                    y: g.key_gap as u16,
                                    width: bl,
                                    height: upper_h,
                                },
                            )
                        } else {
                            None
                        };
                        Some(seq![Element::WhiteKey { wide: wide, small: small, blind: blind }])
                    }
                },
            }
        },
        crate::base::ResultElement::Gap(_) => None,
    }
}

/// Walks the distribution left to right with an x-cursor and collects the
/// elements of every key unit; gap units only advance the cursor.
pub open spec fn assemble(
    units: Seq<crate::base::ResultElement>,
    t: crate::top::TopModel,
    g: Geometry,
    i: int,
    x: int,
) -> Option<Seq<Element>>
    decreases units.len() - i,
{
    if i >= units.len() {
        Some(Seq::<Element>::empty())
    } else {
        match units[i] {
            crate::base::ResultElement::Gap(gw) => assemble(units, t, g, i + 1, x + gw),
            crate::base::ResultElement::Key(w, k) => {
                if !crate::top::top_for_ok(t, units[i]) {
                    None
                } else {
                    match key_elements(t, g, units[i], x, i, units.len() as int) {
                        None => None,
                        Some(es) => match assemble(units, t, g, i + 1, x + w) {
                            None => None,
                            Some(rest) => Some(es + rest),
                        },
                    }
                }
            },
        }
    }
}

/// The mathematical content of a finished keyboard.
pub ghost struct Keyboard2dModel {
    pub left_white_key: u8,
    pub right_white_key: u8,
    pub width: u16,
    pub height: u16,
    pub perfect: bool,
    pub elements: Seq<Element>,
}

/// The finished keyboard layout of a configuration: the width solver's
/// distribution, the sub-width breakdown and the assembled rectangles, or
/// `None` where any stage failed.
pub open spec fn spec_build2d(kb: KeyboardBuilder) -> Option<Keyboard2dModel> {
    match crate::base::spec_base(kb) {
        None => None,
        Some(bm) => match crate::top::spec_top(kb, bm) {
            None => None,
            Some(tm) => match spec_geometry(kb, bm.nr_of_white_keys) {
                None => None,
                Some(g) => match assemble(crate::base::result_seq(bm), tm, g, 0, 0) {
                    None => None,
                    Some(els) => Some(
                        Keyboard2dModel {
                            left_white_key: kb.left_white_key,
                            right_white_key: kb.right_white_key,
                            width: kb.width,
                            height: g.height as u16,
                            perfect: crate::base::spec_perfect(bm) && tm.black_fs_as_width
                                == tm.black_gs_width,
                            elements: els,
                        },
                    ),
                },
            },
        },
    }
}

/// The returned keyboard with all calculated elements.
pub struct Keyboard2d {
    pub left_white_key: u8,
    pub right_white_key: u8,
    pub width: u16,
    pub height: u16,
    pub perfect: bool,
    pub elements: Vec<Element>,
}

impl View for Keyboard2d {
    type V = Keyboard2dModel;

    open spec fn view(&self) -> Keyboard2dModel {
        Keyboard2dModel {
            left_white_key: self.left_white_key,
            right_white_key: self.right_white_key,
            width: self.width,
            height: self.height,
            perfect: self.perfect,
            elements: self.elements@,
        }
    }
}

/// The white-key rectangles of an element sequence, in order; the blind
/// rectangles are included after their key where `blind_as_white` is set.
pub open spec fn spec_white_keys(s: Seq<Element>, blind_as_white: bool) -> Seq<Rectangle>
    decreases s.len(),
{
    if s.len() == 0 {
        Seq::<Rectangle>::empty()
    } else {
        spec_white_keys(s.drop_last(), blind_as_white) + (match s.last() {
            Element::WhiteKey { wide, small, blind } => {
                let base = seq![wide, small];
                if blind_as_white {
                    match blind {
                        Some(b) => base + seq![b],
                        None => base,
                    }
                } else {
                    base
                }
            },
            Element::BlackKey(_) => Seq::<Rectangle>::empty(),
        })
    }
}

/// The black-key rectangles of an element sequence, in order.
pub open spec fn spec_black_keys(s: Seq<Element>) -> Seq<Rectangle>
    decreases s.len(),
{
    if s.len() == 0 {
        Seq::<Rectangle>::empty()
    } else {
        spec_black_keys(s.drop_last()) + (match s.last() {
            Element::BlackKey(r) => seq![r],
            Element::WhiteKey { .. } => Seq::<Rectangle>::empty(),
        })
    }
}

impl Keyboard2d {
    /// The elements in drawing order, alternating white and black keys from
    /// left to right.
    pub fn iter(&self) -> (r: &Vec<Element>)
        ensures
            r@ == self@.elements,
    {
        &self.elements
    }

    /// All white key rectangles - with or without the blind parts.
    pub fn white_keys(&self, blind_as_white: bool) -> (r: Vec<Rectangle>)
        ensures
            r@ == spec_white_keys(self@.elements, blind_as_white),
    {
        let mut rects: Vec<Rectangle> = Vec::new();
        let n = self.elements.len();
        let mut i: usize = 0;
        while i < n
            invariant
                i <= n,
                rects@ == spec_white_keys(self@.elements.take(i as int), blind_as_white),
            decreases n - i,
        {
            let ghost pre = self@.elements.take(i as int);
            match self.elements[i] {
                Element::WhiteKey { wide, small, blind } => {
                    rects.push(wide);
                    rects.push(small);
                    if blind_as_white {
                        match blind {
                            Some(b) => {
                                rects.push(b);
                            },
                            None => {},
                        }
                    }
                },
                Element::BlackKey(_) => {},
            }
            i = i + 1;
            proof {
                assert(self@.elements.take(i as int).drop_last() =~= pre);
                assert(self@.elements.take(i as int).last() == self@.elements[i - 1]);
            }
        }
        proof {
            assert(self@.elements.take(n as int) =~= self@.elements);
        }
        rects
    }

    /// All black key rectangles.
    pub fn black_keys(&self) -> (r: Vec<Rectangle>)
        ensures
            r@ == spec_black_keys(self@.elements),
    {
        let mut rects: Vec<Rectangle> = Vec::new();
        let n = self.elements.len();
        let mut i: usize = 0;
        while i < n
            invariant
                i <= n,
                rects@ == spec_black_keys(self@.elements.take(i as int)),
            decreases n - i,
        {
            let ghost pre = self@.elements.take(i as int);
            match self.elements[i] {
                Element::BlackKey(r) => {
                    rects.push(r);
                },
                Element::WhiteKey { .. } => {},
            }
            i = i + 1;
            proof {
                assert(self@.elements.take(i as int).drop_last() =~= pre);
                assert(self@.elements.take(i as int).last() == self@.elements[i - 1]);
            }
        }
        proof {
            assert(self@.elements.take(n as int) =~= self@.elements);
        }
        rects
    }

    /// Whether the layout required no compromise on key or gap widths.
    pub fn is_perfect(&self) -> (r: bool)
        ensures
            r == self@.perfect,
    {
        self.perfect
    }
}

impl KeyboardBuilder {
    /// Emits the elements of one white key unit at cursor position `x`,
    /// exactly as [`key_elements`] describes.
    #[verifier::rlimit(100)]
    #[verifier::spinoff_prover]
    fn emit_key(
        out: &mut Vec<Element>,
        top: &crate::top::Top,
        key_gap: u16,
        black_gap: u16,
        black_key_height: u16,
        white_key_wide_height: u16,
        Ghost(geo): Ghost<Geometry>,
        u: crate::base::ResultElement,
        x: u16,
        i: usize,
        ulen: usize,
    ) -> (r: Result<(), SolverInvariantError>)
        requires
            geo.key_gap == key_gap as int,
            geo.black_gap == black_gap as int,
            geo.black_key_height == black_key_height as int,
            geo.white_key_wide_height == white_key_wide_height as int,
            geo.black_gap + geo.black_key_height + geo.key_gap <= 65535,
            crate::top::top_for_ok(top@, u),
            u is Key,
            i < ulen,
            3 <= ulen,
        ensures
            (match key_elements(top@, geo, u, x as int, i as int, ulen as int) {
                Some(es) => r is Ok && final(out)@ == old(out)@ + es,
                None => r is Err,
            }),
    {
        let wk: u16 = match u {
            crate::base::ResultElement::Key(w, _) => w,
            crate::base::ResultElement::Gap(g) => g,
        };
        let tr = top.get_top_for(&u);
        let wide = Rectangle {
            x: x,
            y: black_gap + black_key_height + key_gap,
            width: wk,
            height: white_key_wide_height,
        };
        let upper_h: u16 = black_gap + black_key_height;
        match tr {
            crate::top::TopResultElement::WhiteGapBlack(sw, sg, blk) => {
                if i == ulen - 2 && !(sw <= wk && x as u32 + sw as u32 <= 65535) {
                    return Err(SolverInvariantError);
                }
                if i < ulen - 2 && !(x as u32 + sw as u32 + sg as u32 <= 65535) {
                    return Err(SolverInvariantError);
                }
                let small = Rectangle { x: x, y: key_gap, width: sw, height: upper_h };
                let blind: Option<Rectangle> = if i == ulen - 2 {
                    Some(Rectangle { x: x + sw, y: key_gap, width: wk - sw, height: upper_h })
                } else {
                    None
                };
                out.push(Element::WhiteKey { wide: wide, small: small, blind: blind });
                if i < ulen - 2 {
                    out.push(
                        Element::BlackKey(
                            Rectangle {
                                x: x + sw + sg,
                                y: key_gap,
                                width: blk,
                                height: black_key_height,
                            },
                        ),
                    );
                }
            },
            crate::top::TopResultElement::BlindWhiteGapBlack(bl, sw, sg, blk) => {
                if !(x as u32 + bl as u32 <= 65535) {
                    return Err(SolverInvariantError);
                }
                if i != 1 && i == ulen - 2 && !(sw as u32 + sg as u32 <= wk as u32 && x as u32
                    + sw as u32 + sg as u32 <= 65535) {
                    return Err(SolverInvariantError);
                }
                if i < ulen - 2 && !(x as u32 + bl as u32 + sw as u32 + sg as u32 <= 65535) {
                    return Err(SolverInvariantError);
                }
                let small = Rectangle { x: x + bl, y: key_gap, width: sw, height: upper_h };
                let blind: Option<Rectangle> = if i == 1 {
                    Some(Rectangle { x: x, y: key_gap, width: bl, height: upper_h })
                } else if i == ulen - 2 {
                    Some(
                        Rectangle {
                            x: x + sw + sg,
                            y: key_gap,
                            width: wk - sw - sg,
                            height: upper_h,
                        },
                    )
                } else {
                    None
                };
                out.push(Element::WhiteKey { wide: wide, small: small, blind: blind });
                if i < ulen - 2 {
                    out.push(
                        Element::BlackKey(
                            Rectangle {
                                x: x + bl + sw + sg,
                                y: key_gap,
                                width: blk,
                                height: black_key_height,
                            },
                        ),
                    );
                }
            },
            crate::top::TopResultElement::BlindWhite(bl, sw) => {
                if !(x as u32 + bl as u32 <= 65535) {
                    return Err(SolverInvariantError);
                }
                let small = Rectangle { x: x + bl, y: key_gap, width: sw, height: upper_h };
                let blind: Option<Rectangle> = if i == 1 {
                    Some(Rectangle { x: x, y: key_gap, width: bl, height: upper_h })
                } else {
                    None
                };
                out.push(Element::WhiteKey { wide: wide, small: small, blind: blind });
            },
        }
        Ok(())
    }

    /// Final build of the keyboard: runs both solvers and assembles all
    /// elements, exactly as [`spec_build2d`] describes.
    #[verifier::rlimit(100)]
    #[verifier::spinoff_prover]
    pub fn build2d(self) -> (r: Result<Keyboard2d, SolverInvariantError>)
        requires
            self.wf(),
        ensures
            match r {
                Ok(k) => spec_build2d(self) == Some(k@),
                Err(_) => spec_build2d(self) is None,
            },
    {
        let base = match crate::base::Base::calculate(&self) {
            Ok(b) => b,
            Err(e) => {
                return Err(e);
            },
        };
        let top = match crate::top::Top::calculate(&self, &base) {
            Ok(t) => t,
            Err(e) => {
                return Err(e);
            },
        };
        let ghost bm = base@;
        let ghost tm = top@;
        let n: u16 = base.nr_of_white_keys;
        if n == 0 {
            return Err(SolverInvariantError);
        }
        // Vertical geometry: scale the physical measures to the pixel width.
        let w64: u64 = self.width as u64;
        let key_gap_10um: u64 = (self.white_key_height_10um - self.black_key_height_10um
            - self.white_key_wide_height_10um) as u64;
        let wide_plus_gap: u64 = self.white_key_wide_width_10um as u64 + key_gap_10um;
        proof {
            assert(1 <= n as u64 <= 128) by {
                assert(base.wf());
            }
            assert(2342 <= wide_plus_gap * (n as u64) <= 2342 * 128) by (nonlinear_arith)
                requires
                    wide_plus_gap == 2342,
                    1 <= n as u64 <= 128,
            ;
        }
        let kbw: u64 = wide_plus_gap * (n as u64) + key_gap_10um;
        let key_gap64: u64 = (w64 * key_gap_10um + kbw / 2) / kbw;
        proof {
            vstd::arithmetic::div_mod::lemma_div_nonincreasing(
                (w64 * key_gap_10um + kbw / 2) as int,
                kbw as int,
            );
            assert(key_gap64 <= 8456767);
            vstd::arithmetic::mul::lemma_mul_upper_bound(
                key_gap64 as int,
                8456767,
                n as int + 1,
                129,
            );
        }
        let needed: u64 = key_gap64 * (n as u64 + 1);
        if w64 < needed {
            return Err(SolverInvariantError);
        }
        let max_pure: u64 = w64 - needed;
        let wkww: u64 = max_pure / (n as u64);
        proof {
            vstd::arithmetic::div_mod::lemma_div_pos_is_pos(max_pure as int, n as int);
            vstd::arithmetic::div_mod::lemma_div_nonincreasing(max_pure as int, n as int);
        }
        let black_key_height64: u64 = (wkww * (self.black_key_height_10um as u64) * 1024 + (
        self.white_key_wide_width_10um as u64) / 2) / (self.white_key_wide_width_10um as u64) / (
        self.dot_ratio_1024 as u64);
        let white_key_wide_height64: u64 = (wkww * (self.white_key_wide_height_10um as u64) + (
        self.white_key_wide_width_10um as u64) / 2) / (self.white_key_wide_width_10um as u64);
        let black_gap64: u64 = if self.need_black_gap {
            key_gap64
        } else {
            0
        };
        if !(key_gap64 <= 65535 && black_key_height64 <= 65535 && white_key_wide_height64 <= 65535
            && 2 * key_gap64 + black_gap64 + black_key_height64 + white_key_wide_height64
            <= 65535) {
            proof {
                assert(spec_geometry(self, n as int) is None);
            }
            return Err(SolverInvariantError);
        }
        let height: u16 = (2 * key_gap64 + black_gap64 + black_key_height64
            + white_key_wide_height64) as u16;
        let key_gap: u16 = key_gap64 as u16;
        let black_gap: u16 = black_gap64 as u16;
        let black_key_height: u16 = black_key_height64 as u16;
        let white_key_wide_height: u16 = white_key_wide_height64 as u16;
        let ghost geo = Geometry {
            key_gap: key_gap as int,
            black_gap: black_gap as int,
            black_key_height: black_key_height as int,
            white_key_wide_height: white_key_wide_height as int,
            height: height as int,
        };
        proof {
            assert(spec_geometry(self, n as int) == Some(geo));
        }
        // Assemble the elements, walking the distribution with an x-cursor.
        let (perfect_base, units) = base.result();
        proof {
            assert(units@ == crate::base::result_seq(bm));
            assert(crate::base::sum_units(units@) == self.width);
        }
        let ulen = units.len();
        let mut elements: Vec<Element> = Vec::new();
        let mut x: u16 = 0;
        let mut i: usize = 0;
        proof {
            assert(units@.take(0) =~= Seq::<crate::base::ResultElement>::empty());
        }
        while i < ulen
            invariant
                i <= ulen,
                ulen == units@.len(),
                x as int == crate::base::sum_units(units@.take(i as int)),
                assemble(units@, tm, geo, 0, 0) == (match assemble(
                    units@,
                    tm,
                    geo,
                    i as int,
                    x as int,
                ) {
                    Some(rest) => Some(elements@ + rest),
                    None => None::<Seq<Element>>,
                }),
            decreases ulen - i,
        {
            let u = units[i];
            proof {
                crate::base::lemma_sum_units_step(units@, i as int);
                crate::base::lemma_sum_units_take_le(units@, i as int + 1);
            }
            match u {
                crate::base::ResultElement::Gap(gw) => {
                    x = x + gw;
                    i = i + 1;
                },
                crate::base::ResultElement::Key(wk, _key) => {
                    if !top.accepts(&u) {
                        return Err(SolverInvariantError);
                    }
                    let ghost before = elements@;
                    match Self::emit_key(
                        &mut elements,
                        &top,
                        key_gap,
                        black_gap,
                        black_key_height,
                        white_key_wide_height,
                        Ghost(geo),
                        u,
                        x,
                        i,
                        ulen,
                    ) {
                        Ok(()) => {},
                        Err(e) => {
                            return Err(e);
                        },
                    }
                    proof {
                        let es = key_elements(tm, geo, u, x as int, i as int, ulen as int)
                            ->Some_0;
                        assert(elements@ == before + es);
                        match assemble(units@, tm, geo, i as int + 1, x as int + wk) {
                            Some(rest) => {
                                assert((before + es) + rest =~= before + (es + rest));
                            },
                            None => {},
                        }
                    }
                    x = x + wk;
                    i = i + 1;
                },
            }
        }
        proof {
            assert(elements@ + Seq::<Element>::empty() =~= elements@);
        }
        Ok(
            Keyboard2d {
                left_white_key: self.left_white_key,
                right_white_key: self.right_white_key,
                width: self.width,
                height: height,
                perfect: perfect_base && top.is_perfect(),
                elements: elements,
            },
        )
    }
}

/// Rebuilding from an equal configuration yields a bit-identical layout:
/// the whole pipeline is a pure function of the configuration.
pub proof fn lemma_build2d_idempotent(
    kb1: KeyboardBuilder,
    kb2: KeyboardBuilder,
    l1: Keyboard2dModel,
    l2: Keyboard2dModel,
)
    requires
        kb1 == kb2,
        spec_build2d(kb1) == Some(l1),
        spec_build2d(kb2) == Some(l2),
    ensures
        l1 == l2,
{
}

/// Whether element `e` is a white key whose wide rectangle spans, at the
/// lower band, exactly the pixel columns of unit `ui` of the distribution.
pub open spec fn wide_spans_unit(units: Seq<crate::base::ResultElement>, e: Element, ui: int) -> bool {
    match e {
        Element::WhiteKey { wide, small, blind } => match units[ui] {
            crate::base::ResultElement::Key(w, _) => wide.x as int == crate::base::sum_units(
                units.take(ui),
            ) && wide.width == w,
            _ => false,
        },
        _ => false,
    }
}

/// The elements of one key unit: one white key first, then only black keys.
proof fn lemma_key_elements_shape(
    t: crate::top::TopModel,
    g: Geometry,
    u: crate::base::ResultElement,
    x: int,
    i: int,
    len: int,
)
    requires
        0 <= x <= 65535,
    ensures
        key_elements(t, g, u, x, i, len) matches Some(es) ==> es.len() >= 1 && (match es[0] {
            Element::WhiteKey { wide, small, blind } => wide.x as int == x && (u matches
            crate::base::ResultElement::Key(w, _) && wide.width == w),
            _ => false,
        }) && (forall|j: int| 1 <= j < es.len() ==> es[j] is BlackKey),
{
}

/// Every white key element that the assembler emits from position `i` on
/// spans exactly the columns of one key unit at or after `i`.
proof fn lemma_assemble_wides(
    units: Seq<crate::base::ResultElement>,
    t: crate::top::TopModel,
    g: Geometry,
    i: int,
    x: int,
)
    requires
        0 <= i <= units.len(),
        assemble(units, t, g, i, x) is Some,
        x == crate::base::sum_units(units.take(i)),
        crate::base::sum_units(units) <= 65535,
    ensures
        forall|j: int|
            0 <= j < assemble(units, t, g, i, x)->Some_0.len() && assemble(
                units,
                t,
                g,
                i,
                x,
            )->Some_0[j] is WhiteKey ==> exists|ui: int|
                i <= ui < units.len() && #[trigger] wide_spans_unit(
                    units,
                    assemble(units, t, g, i, x)->Some_0[j],
                    ui,
                ),
    decreases units.len() - i,
{
    if i >= units.len() {
    } else {
        let es = assemble(units, t, g, i, x)->Some_0;
        match units[i] {
            crate::base::ResultElement::Gap(gw) => {
                crate::base::lemma_sum_units_step(units, i);
                lemma_assemble_wides(units, t, g, i + 1, x + gw);
            },
            crate::base::ResultElement::Key(w, k) => {
                crate::base::lemma_sum_units_step(units, i);
                crate::base::lemma_sum_units_monotonic(units, i, units.len() as int);
                crate::base::lemma_sum_units_monotonic(units, 0, i);
                crate::base::lemma_sum_units_nonneg(units, i);
                lemma_key_elements_shape(t, g, units[i], x, i, units.len() as int);
                lemma_assemble_wides(units, t, g, i + 1, x + w);
                let kes = key_elements(t, g, units[i], x, i, units.len() as int)->Some_0;
                let rest = assemble(units, t, g, i + 1, x + w)->Some_0;
                assert(es == kes + rest);
                assert(wide_spans_unit(units, es[0], i));
                assert forall|j: int| 0 <= j < es.len() && es[j] is WhiteKey implies exists|
                    ui: int,
                |
                    i <= ui < units.len() && #[trigger] wide_spans_unit(units, es[j], ui) by {
                    if j == 0 {
                        assert(wide_spans_unit(units, es[0], i));
                    } else if j < kes.len() {
                        assert(es[j] == kes[j]);
                        assert(es[j] is BlackKey);
                    } else {
                        assert(es[j] == rest[j - kes.len()]);
                    }
                }
            },
        }
    }
}

/// At the lower band, every white key's wide rectangle spans exactly the
/// pixel columns of the key unit it was assembled from; together with the
/// tiling of the units this pins the lower band's coverage of the width.
pub proof fn lemma_layout_wides_span_units(kb: KeyboardBuilder, l: Keyboard2dModel)
    requires
        kb.wf(),
        spec_build2d(kb) == Some(l),
    ensures
        forall|j: int|
            0 <= j < l.elements.len() && l.elements[j] is WhiteKey ==> exists|ui: int|
                0 <= ui < crate::base::spec_base(kb)->Some_0.elements.len()
                    && #[trigger] wide_spans_unit(
                    crate::base::result_seq(crate::base::spec_base(kb)->Some_0),
                    l.elements[j],
                    ui,
                ),
{
    let bm = crate::base::spec_base(kb)->Some_0;
    let tm = crate::top::spec_top(kb, bm)->Some_0;
    let g = spec_geometry(kb, bm.nr_of_white_keys)->Some_0;
    let units = crate::base::result_seq(bm);
    crate::base::lemma_sum_units_eq_fit(kb, bm);
    assert(units.take(0) =~= Seq::<crate::base::ResultElement>::empty());
    lemma_assemble_wides(units, tm, g, 0, 0);
    assert(l.elements == assemble(units, tm, g, 0, 0)->Some_0);
}

/// The lower-band pixel interval of a white key element; `(0, 0)` for a
/// black key.
pub open spec fn wide_interval(e: Element) -> (int, int) {
    match e {
        Element::WhiteKey { wide, small, blind } => (wide.x as int, wide.x + wide.width),
        Element::BlackKey(_) => (0int, 0int),
    }
}

/// From cursor position `x` on, the assembler emits white keys whose wide
/// rectangles start at or right of the cursor and never overlap.
proof fn lemma_assemble_wides_ordered(
    units: Seq<crate::base::ResultElement>,
    t: crate::top::TopModel,
    g: Geometry,
    i: int,
    x: int,
)
    requires
        0 <= i <= units.len(),
        assemble(units, t, g, i, x) is Some,
        x == crate::base::sum_units(units.take(i)),
        crate::base::sum_units(units) <= 65535,
    ensures
        forall|j: int|
            0 <= j < assemble(units, t, g, i, x)->Some_0.len() && #[trigger] assemble(
                units,
                t,
                g,
                i,
                x,
            )->Some_0[j] is WhiteKey ==> x <= wide_interval(assemble(units, t, g, i, x)->Some_0[j]).0,
        forall|j1: int, j2: int|
            0 <= j1 < j2 < assemble(units, t, g, i, x)->Some_0.len() && #[trigger] assemble(
                units,
                t,
                g,
                i,
                x,
            )->Some_0[j1] is WhiteKey && #[trigger] assemble(units, t, g, i, x)->Some_0[j2]
                is WhiteKey ==> wide_interval(assemble(units, t, g, i, x)->Some_0[j1]).1
                <= wide_interval(assemble(units, t, g, i, x)->Some_0[j2]).0,
    decreases units.len() - i,
{
    if i >= units.len() {
    } else {
        let es = assemble(units, t, g, i, x)->Some_0;
        match units[i] {
            crate::base::ResultElement::Gap(gw) => {
                crate::base::lemma_sum_units_step(units, i);
                lemma_assemble_wides_ordered(units, t, g, i + 1, x + gw);
            },
            crate::base::ResultElement::Key(w, k) => {
                crate::base::lemma_sum_units_step(units, i);
                crate::base::lemma_sum_units_monotonic(units, i, units.len() as int);
                crate::base::lemma_sum_units_nonneg(units, i);
                lemma_key_elements_shape(t, g, units[i], x, i, units.len() as int);
                lemma_assemble_wides_ordered(units, t, g, i + 1, x + w);
                let kes = key_elements(t, g, units[i], x, i, units.len() as int)->Some_0;
                let rest = assemble(units, t, g, i + 1, x + w)->Some_0;
                assert(es == kes + rest);
                assert(wide_interval(es[0]) == (x, x + w));
                assert forall|j: int| 0 <= j < es.len() && #[trigger] es[j] is WhiteKey implies x
                    <= wide_interval(es[j]).0 by {
                    if j >= kes.len() {
                        assert(es[j] == rest[j - kes.len()]);
                    } else if j > 0 {
                        assert(es[j] == kes[j]);
                    }
                }
                assert forall|j1: int, j2: int|
                    0 <= j1 < j2 < es.len() && #[trigger] es[j1] is WhiteKey && #[trigger] es[j2]
                        is WhiteKey implies wide_interval(es[j1]).1 <= wide_interval(es[j2]).0 by {
                    if j1 >= kes.len() {
                        assert(es[j1] == rest[j1 - kes.len()]);
                        assert(es[j2] == rest[j2 - kes.len()]);
                    } else if j1 == 0 {
                        assert(j2 >= kes.len());
                        assert(es[j2] == rest[j2 - kes.len()]);
                        assert(x + w <= wide_interval(es[j2]).0);
                    } else {
                        assert(es[j1] == kes[j1]);
                        assert(es[j1] is BlackKey);
                    }
                }
            },
        }
    }
}

/// At the lower band, the wide rectangles of the white keys never overlap:
/// walking the elements left to right, each wide rectangle ends at or
/// before the next one starts.
pub proof fn lemma_layout_wides_disjoint(kb: KeyboardBuilder, l: Keyboard2dModel)
    requires
        kb.wf(),
        spec_build2d(kb) == Some(l),
    ensures
        forall|j1: int, j2: int|
            0 <= j1 < j2 < l.elements.len() && #[trigger] l.elements[j1] is WhiteKey
                && #[trigger] l.elements[j2] is WhiteKey ==> wide_interval(l.elements[j1]).1
                <= wide_interval(l.elements[j2]).0,
{
    let bm = crate::base::spec_base(kb)->Some_0;
    let tm = crate::top::spec_top(kb, bm)->Some_0;
    let g = spec_geometry(kb, bm.nr_of_white_keys)->Some_0;
    let units = crate::base::result_seq(bm);
    crate::base::lemma_sum_units_eq_fit(kb, bm);
    assert(units.take(0) =~= Seq::<crate::base::ResultElement>::empty());
    lemma_assemble_wides_ordered(units, tm, g, 0, 0);
    assert(l.elements == assemble(units, tm, g, 0, 0)->Some_0);
}

/// Whether a black key rectangle stands exactly one black gap right of the
/// visible part of the white key element before it.
pub open spec fn black_abuts_white(prev: Element, cur: Element, black_gap: int) -> bool {
    match (prev, cur) {
        (Element::WhiteKey { wide, small, blind }, Element::BlackKey(b)) => b.x == small.x
            + small.width + black_gap,
        _ => false,
    }
}

/// The elements of one key unit: where a black key is emitted, it follows
/// the white key at exactly the black gap.
proof fn lemma_key_elements_black(
    t: crate::top::TopModel,
    g: Geometry,
    u: crate::base::ResultElement,
    x: int,
    i: int,
    len: int,
)
    requires
        0 <= x <= 65535,
        0 <= t.black_gap <= 65535,
    ensures
        key_elements(t, g, u, x, i, len) matches Some(es) ==> 1 <= es.len() <= 2 && !(es[0]
            is BlackKey) && (es.len() == 2 ==> black_abuts_white(es[0], es[1], t.black_gap)),
{
}

/// From any position on, every black key the assembler emits directly
/// follows its white key, one black gap right of the visible part.
proof fn lemma_assemble_blacks(
    units: Seq<crate::base::ResultElement>,
    t: crate::top::TopModel,
    g: Geometry,
    i: int,
    x: int,
)
    requires
        0 <= i <= units.len(),
        assemble(units, t, g, i, x) is Some,
        x == crate::base::sum_units(units.take(i)),
        crate::base::sum_units(units) <= 65535,
        0 <= t.black_gap <= 65535,
    ensures
        forall|j: int|
            0 <= j < assemble(units, t, g, i, x)->Some_0.len() && #[trigger] assemble(
                units,
                t,
                g,
                i,
                x,
            )->Some_0[j] is BlackKey ==> 1 <= j && black_abuts_white(
                assemble(units, t, g, i, x)->Some_0[j - 1],
                assemble(units, t, g, i, x)->Some_0[j],
                t.black_gap,
            ),
    decreases units.len() - i,
{
    if i >= units.len() {
    } else {
        let es = assemble(units, t, g, i, x)->Some_0;
        match units[i] {
            crate::base::ResultElement::Gap(gw) => {
                crate::base::lemma_sum_units_step(units, i);
                lemma_assemble_blacks(units, t, g, i + 1, x + gw);
            },
            crate::base::ResultElement::Key(w, k) => {
                crate::base::lemma_sum_units_step(units, i);
                crate::base::lemma_sum_units_monotonic(units, i, units.len() as int);
                crate::base::lemma_sum_units_nonneg(units, i);
                lemma_key_elements_black(t, g, units[i], x, i, units.len() as int);
                lemma_assemble_blacks(units, t, g, i + 1, x + w);
                let kes = key_elements(t, g, units[i], x, i, units.len() as int)->Some_0;
                let rest = assemble(units, t, g, i + 1, x + w)->Some_0;
                assert(es == kes + rest);
                assert forall|j: int| 0 <= j < es.len() && #[trigger] es[j] is BlackKey implies 1
                    <= j && black_abuts_white(es[j - 1], es[j], t.black_gap) by {
                    if j < kes.len() {
                        assert(es[j] == kes[j]);
                        if j > 0 {
                            assert(es[j - 1] == kes[j - 1]);
                        }
                    } else {
                        assert(es[j] == rest[j - kes.len()]);
                        assert(1 <= j - kes.len());
                        assert(es[j - 1] == rest[j - kes.len() - 1]);
                    }
                }
            },
        }
    }
}

/// In the assembled layout, every black key stands directly after its white
/// key, one black gap right of the key's visible part.
pub proof fn lemma_layout_blacks_abut_whites(kb: KeyboardBuilder, l: Keyboard2dModel)
    requires
        kb.wf(),
        spec_build2d(kb) == Some(l),
    ensures
        forall|j: int|
            0 <= j < l.elements.len() && #[trigger] l.elements[j] is BlackKey ==> 1 <= j
                && black_abuts_white(
                l.elements[j - 1],
                l.elements[j],
                crate::top::spec_top(kb, crate::base::spec_base(kb)->Some_0)->Some_0.black_gap,
            ),
{
    let bm = crate::base::spec_base(kb)->Some_0;
    let tm = crate::top::spec_top(kb, bm)->Some_0;
    let g = spec_geometry(kb, bm.nr_of_white_keys)->Some_0;
    let units = crate::base::result_seq(bm);
    crate::base::lemma_sum_units_eq_fit(kb, bm);
    crate::base::lemma_widths_fit_of_base(kb, bm);
    assert(units.take(0) =~= Seq::<crate::base::ResultElement>::empty());
    lemma_assemble_blacks(units, tm, g, 0, 0);
    assert(l.elements == assemble(units, tm, g, 0, 0)->Some_0);
}

} // verus!
