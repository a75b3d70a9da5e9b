//! The sub-width solver: subdivides each white key's width into the visible
//! upper part, the neighbouring black key and the gaps between them.
//!
//! It works on the aggregate width that the width solver assigned to one
//! full C-D-E span and one full F-G-A-B span, and distributes them into
//! integral sub-widths.  The whole computation is mirrored by [`spec_top`],
//! and the executable solver is proved to return exactly the breakdown that
//! function describes.

use vstd::prelude::*;

use crate::KeyboardBuilder;
use crate::SolverInvariantError;
use crate::base::Base;
use crate::base::BaseModel;
use crate::base::ResultElement;

verus! {

/// The upper-band breakdown of one white key, left to right:
/// `WhiteGapBlack(visible, gap, black)` for a key followed by a black key,
/// `BlindWhiteGapBlack(blind, visible, gap, black)` for a key whose visible
/// part starts right of the key itself, and `BlindWhite(blind, visible)` for
/// a key with no black key on its right side.
#[derive(Clone, Copy, Debug, PartialEq, Eq, Structural)]
pub enum TopResultElement {
    WhiteGapBlack(u16, u16, u16),
    BlindWhiteGapBlack(u16, u16, u16, u16),
    BlindWhite(u16, u16),
}

/// The mathematical state of the sub-width solver.
pub ghost struct TopModel {
    pub black_gap: int,
    pub cde_key_width: int,
    pub cde_black_key_width: int,
    pub d_left_blind_width: int,
    pub e_left_blind_width: int,
    pub black_fs_as_width: int,
    pub black_gs_width: int,
    pub ga_white_width: int,
    pub fb_white_width: int,
    pub g_left_blind_width: int,
    pub a_left_blind_width: int,
    pub b_left_blind_width: int,
    pub class_c: int,
    pub class_d: int,
    pub class_e: int,
    pub class_f: int,
    pub class_g: int,
    pub class_a: int,
    pub class_b: int,
    pub class_gap: int,
}

/// The width that the solved distribution assigns to every C key.
pub open spec fn class_c_width(m: BaseModel) -> int {
    if m.cde_keys_enlarged {
        m.width_cde
    } else {
        m.identical_key
    }
}

/// The smallest width that the solved distribution assigns to a D key: an
/// alternating enlargement is handled per instance, not here.
pub open spec fn class_d_width(m: BaseModel) -> int {
    if m.d_key_enlarged {
        m.width_d
    } else if m.cde_keys_enlarged {
        m.width_cde
    } else {
        m.identical_key
    }
}

/// The width that the solved distribution assigns to every F, G, A or B key.
pub open spec fn class_f_width(m: BaseModel) -> int {
    if m.fgab_keys_enlarged {
        m.width_fgab
    } else {
        m.identical_key
    }
}

/// The aggregate width of one full C-D-E span, inner gaps included.
pub open spec fn cde_span(m: BaseModel) -> int {
    class_c_width(m) + class_d_width(m) + class_c_width(m) + 2 * m.identical_gap
}

/// The aggregate width of one full F-G-A-B span, inner gaps included.
pub open spec fn fgab_span(m: BaseModel) -> int {
    4 * class_f_width(m) + 3 * m.identical_gap
}

/// A value that one of the breakdown's 16-bit fields can store.
pub open spec fn fits_u16(x: int) -> bool {
    0 <= x <= 65535
}

/// Stage one of the breakdown: the black-key widths, the shared C-D-E
/// visible width and the F-G-A-B white budget, as
/// `(black, cde_key, middle_black, fgab_white)`; `None` where a width would
/// be negative or the budget odd.
pub open spec fn top_black_widths(bk: int, cde_w: int, fgab_w: int, black_gap: int) -> Option<
    (int, int, int, int),
> {
    let x = cde_w - 2 * bk - 4 * black_gap;
    if x < 0 {
        None
    } else {
        let bkw = bk + (if x % 3 == 0 {
            0int
        } else if x % 3 == 1 {
            2int
        } else {
            1int
        });
        let y = cde_w - 2 * bkw - 4 * black_gap;
        if y < 0 {
            None
        } else {
            let ckw = y / 3;
            let gs = if (fgab_w % 2 == 0) == (bkw % 2 == 0) {
                bkw
            } else {
                bkw + 1
            };
            let fw = fgab_w - 2 * bkw - gs - 6 * black_gap;
            if fw < 0 {
                None
            } else if fw % 2 != 0 {
                None
            } else {
                Some((bkw, ckw, gs, fw))
            }
        }
    }
}

/// Stage two: the even F-G-A-B white budget `fw` split into the G/A pair
/// and the F/B pair, proportionally to the physical small-key widths, with
/// a residual adjustment keyed by the remainder and the F/B parity.
pub open spec fn top_pair_widths(fw: int, ga10: int, fb10: int) -> Option<(int, int)> {
    let denom = ga10 + fb10;
    let ga0 = fw * ga10 / denom;
    let fb0 = fw * fb10 / denom;
    let rdiff = fw - (ga0 + fb0);
    if rdiff == 0 && fb0 % 2 == 0 {
        Some((ga0, fb0))
    } else if rdiff == 1 && fb0 % 2 == 0 {
        Some((ga0 + 1, fb0))
    } else if rdiff == 2 && fb0 % 2 == 0 {
        Some((ga0 + 2, fb0))
    } else if rdiff == 3 && fb0 % 2 == 0 {
        Some((ga0 + 1, fb0 + 2))
    } else if rdiff == 0 {
        Some((ga0 + 1, fb0 - 1))
    } else if rdiff == 1 {
        Some((ga0, fb0 + 1))
    } else if rdiff == 2 {
        Some((ga0 + 1, fb0 + 1))
    } else if rdiff == 3 {
        Some((ga0 + 2, fb0 + 1))
    } else {
        None
    }
}

/// Stage three: the per-class blind offsets, and the check that every
/// stored width fits 16 bits.
pub open spec fn top_blinds(
    gap: int,
    black_gap: int,
    cc: int,
    cd: int,
    cf: int,
    bkw: int,
    ckw: int,
    gs: int,
    ga: int,
    fb: int,
) -> Option<TopModel> {
    let d_blind = ckw + 2 * black_gap + bkw - (cc + gap);
    let e_blind = 2 * ckw + 4 * black_gap + 2 * bkw - (cc + gap + cd + gap);
    let g_blind = fb / 2 + 2 * black_gap + bkw - (cf + gap);
    let a_blind = fb / 2 + 4 * black_gap + bkw + ga / 2 + gs - (cf + gap + cf + gap);
    let b_blind = fb / 2 + 6 * black_gap + 2 * bkw + ga + gs - (cf + gap + cf + gap + cf + gap);
    if d_blind < 0 {
        None
    } else if e_blind < 0 {
        None
    } else if g_blind < 0 {
        None
    } else if a_blind < 0 {
        None
    } else if b_blind < 0 {
        None
    } else if !(fits_u16(bkw) && fits_u16(gs) && fits_u16(ckw) && fits_u16(ga) && fits_u16(fb)
        && fits_u16(d_blind) && fits_u16(e_blind) && fits_u16(g_blind) && fits_u16(a_blind)
        && fits_u16(b_blind)) {
        None
    } else {
        Some(
            TopModel {
                black_gap: black_gap,
                cde_key_width: ckw,
                cde_black_key_width: bkw,
                d_left_blind_width: d_blind,
                e_left_blind_width: e_blind,
                black_fs_as_width: bkw,
                black_gs_width: gs,
                ga_white_width: ga,
                fb_white_width: fb,
                g_left_blind_width: g_blind,
                a_left_blind_width: a_blind,
                b_left_blind_width: b_blind,
                class_c: cc,
                class_d: cd,
                class_e: cc,
                class_f: cf,
                class_g: cf,
                class_a: cf,
                class_b: cf,
                class_gap: gap,
            },
        )
    }
}

/// The sub-width breakdown of a solved distribution, or `None` where the
/// remainder arithmetic would produce a negative or non-integral width.
pub open spec fn spec_top(kb: KeyboardBuilder, bm: BaseModel) -> Option<TopModel> {
    let gap = bm.identical_gap;
    let black_gap: int = if kb.need_black_gap {
        gap
    } else {
        0
    };
    match top_black_widths(bm.black_key_min, cde_span(bm), fgab_span(bm), black_gap) {
        None => None,
        Some((bkw, ckw, gs, fw)) => {
            match top_pair_widths(
                fw,
                kb.white_key_small_width_ga_10um as int,
                kb.white_key_small_width_fb_10um as int,
            ) {
                None => None,
                Some((ga, fb)) => top_blinds(
                    gap,
                    black_gap,
                    class_c_width(bm),
                    class_d_width(bm),
                    class_f_width(bm),
                    bkw,
                    ckw,
                    gs,
                    ga,
                    fb,
                ),
            }
        },
    }
}

/// The sub-width solver's result: the per-class breakdown of one white
/// key's width into blind, visible, gap and black-key parts.
pub struct Top {
    pub black_gap: u16,
    pub cde_key_width: u16,
    pub cde_black_key_width: u16,
    pub d_left_blind_width: u16,
    pub e_left_blind_width: u16,
    pub black_fs_as_width: u16,
    pub black_gs_width: u16,
    pub ga_white_width: u16,
    pub fb_white_width: u16,
    pub g_left_blind_width: u16,
    pub a_left_blind_width: u16,
    pub b_left_blind_width: u16,
    pub class_c: u16,
    pub class_d: u16,
    pub class_e: u16,
    pub class_f: u16,
    pub class_g: u16,
    pub class_a: u16,
    pub class_b: u16,
    pub class_gap: u16,
}

impl View for Top {
    type V = TopModel;

    open spec fn view(&self) -> TopModel {
        TopModel {
            black_gap: self.black_gap as int,
            cde_key_width: self.cde_key_width as int,
            cde_black_key_width: self.cde_black_key_width as int,
            d_left_blind_width: self.d_left_blind_width as int,
            e_left_blind_width: self.e_left_blind_width as int,
            black_fs_as_width: self.black_fs_as_width as int,
            black_gs_width: self.black_gs_width as int,
            ga_white_width: self.ga_white_width as int,
            fb_white_width: self.fb_white_width as int,
            g_left_blind_width: self.g_left_blind_width as int,
            a_left_blind_width: self.a_left_blind_width as int,
            b_left_blind_width: self.b_left_blind_width as int,
            class_c: self.class_c as int,
            class_d: self.class_d as int,
            class_e: self.class_e as int,
            class_f: self.class_f as int,
            class_g: self.class_g as int,
            class_a: self.class_a as int,
            class_b: self.class_b as int,
            class_gap: self.class_gap as int,
        }
    }
}

impl Top {
    /// Stage one of the breakdown, exactly as [`top_black_widths`]
    /// describes.
    fn black_widths(bk: u64, cde_w: u64, fgab_w: u64, black_gap: u64) -> (r: Option<
        (u64, u64, u64, u64),
    >)
        requires
            bk <= 65535,
            cde_w <= 327675,
            fgab_w <= 458745,
            black_gap <= 65535,
        ensures
            match r {
                Some(t) => top_black_widths(bk as int, cde_w as int, fgab_w as int, black_gap as int)
                    == Some((t.0 as int, t.1 as int, t.2 as int, t.3 as int)) && t.0 <= 65537
                    && t.1 <= 327675 && t.2 <= 65538 && t.3 <= 458745,
                None => top_black_widths(bk as int, cde_w as int, fgab_w as int, black_gap as int)
                    is None,
            },
    {
        if cde_w < 2 * bk + 4 * black_gap {
            return None;
        }
        let x: u64 = cde_w - 2 * bk - 4 * black_gap;
        let bkw: u64 = bk + (if x % 3 == 0 {
            0
        } else if x % 3 == 1 {
            2
        } else {
            1
        });
        if cde_w < 2 * bkw + 4 * black_gap {
            return None;
        }
        let y: u64 = cde_w - 2 * bkw - 4 * black_gap;
        let ckw: u64 = y / 3;
        let gs: u64 = if (fgab_w % 2 == 0) == (bkw % 2 == 0) {
            bkw
        } else {
            bkw + 1
        };
        if fgab_w < 2 * bkw + gs + 6 * black_gap {
            return None;
        }
        let fw: u64 = fgab_w - 2 * bkw - gs - 6 * black_gap;
        if fw % 2 != 0 {
            return None;
        }
        Some((bkw, ckw, gs, fw))
    }

    /// Stage two of the breakdown, exactly as [`top_pair_widths`]
    /// describes.
    fn pair_widths(fw: u64, ga10: u32, fb10: u32) -> (r: Option<(u64, u64)>)
        requires
            fw <= 458745,
            ga10 == 1308,
            fb10 == 1283,
        ensures
            match r {
                Some(t) => top_pair_widths(fw as int, ga10 as int, fb10 as int) == Some(
                    (t.0 as int, t.1 as int),
                ) && t.0 <= fw + 2 && t.1 <= fw + 2,
                None => top_pair_widths(fw as int, ga10 as int, fb10 as int) is None,
            },
    {
        let denom: u64 = ga10 as u64 + fb10 as u64;
        let ga0: u64 = fw * (ga10 as u64) / denom;
        let fb0: u64 = fw * (fb10 as u64) / denom;
        proof {
            vstd::arithmetic::div_mod::lemma_div_pos_is_pos(fw as int * ga10 as int, denom as int);
            vstd::arithmetic::div_mod::lemma_div_pos_is_pos(fw as int * fb10 as int, denom as int);
            vstd::arithmetic::div_mod::lemma_div_nonincreasing(
                fw as int * ga10 as int,
                denom as int,
            );
            vstd::arithmetic::div_mod::lemma_div_nonincreasing(
                fw as int * fb10 as int,
                denom as int,
            );
            vstd::arithmetic::mul::lemma_mul_upper_bound(fw as int, 458745, ga10 as int, 1308);
            vstd::arithmetic::mul::lemma_mul_upper_bound(fw as int, 458745, fb10 as int, 1283);
        }
        if ga0 + fb0 > fw {
            return None;
        }
        let rdiff: u64 = fw - (ga0 + fb0);
        let fb_even = fb0 % 2 == 0;
        if rdiff == 0 && fb_even {
            Some((ga0, fb0))
        } else if rdiff == 1 && fb_even {
            Some((ga0 + 1, fb0))
        } else if rdiff == 2 && fb_even {
            Some((ga0 + 2, fb0))
        } else if rdiff == 3 && fb_even {
            Some((ga0 + 1, fb0 + 2))
        } else if rdiff == 0 {
            Some((ga0 + 1, fb0 - 1))
        } else if rdiff == 1 {
            Some((ga0, fb0 + 1))
        } else if rdiff == 2 {
            Some((ga0 + 1, fb0 + 1))
        } else if rdiff == 3 {
            Some((ga0 + 2, fb0 + 1))
        } else {
            None
        }
    }

    /// Stage three of the breakdown, exactly as [`top_blinds`] describes.
    #[verifier::rlimit(100)]
    fn blinds(
        gap: u16,
        black_gap: u16,
        class_c: u16,
        class_d: u16,
        class_f: u16,
        bkw: u64,
        ckw: u64,
        gs: u64,
        ga: u64,
        fb: u64,
    ) -> (r: Option<Top>)
        requires
            bkw <= 65537,
            ckw <= 327675,
            gs <= 65538,
            ga <= 458747,
            fb <= 458747,
        ensures
            match r {
                Some(t) => top_blinds(
                    gap as int,
                    black_gap as int,
                    class_c as int,
                    class_d as int,
                    class_f as int,
                    bkw as int,
                    ckw as int,
                    gs as int,
                    ga as int,
                    fb as int,
                ) == Some(t@),
                None => top_blinds(
                    gap as int,
                    black_gap as int,
                    class_c as int,
                    class_d as int,
                    class_f as int,
                    bkw as int,
                    ckw as int,
                    gs as int,
                    ga as int,
                    fb as int,
                ) is None,
            },
    {
        let lhs_d: u64 = ckw + 2 * (black_gap as u64) + bkw;
        let rhs_d: u64 = class_c as u64 + gap as u64;
        if lhs_d < rhs_d {
            return None;
        }
        let d_blind: u64 = lhs_d - rhs_d;
        let lhs_e: u64 = 2 * ckw + 4 * (black_gap as u64) + 2 * bkw;
        let rhs_e: u64 = class_c as u64 + gap as u64 + class_d as u64 + gap as u64;
        if lhs_e < rhs_e {
            return None;
        }
        let e_blind: u64 = lhs_e - rhs_e;
        let lhs_g: u64 = fb / 2 + 2 * (black_gap as u64) + bkw;
        let rhs_g: u64 = class_f as u64 + gap as u64;
        if lhs_g < rhs_g {
            return None;
        }
        let g_blind: u64 = lhs_g - rhs_g;
        let lhs_a: u64 = fb / 2 + 4 * (black_gap as u64) + bkw + ga / 2 + gs;
        let rhs_a: u64 = class_f as u64 + gap as u64 + class_f as u64 + gap as u64;
        if lhs_a < rhs_a {
            return None;
        }
        let a_blind: u64 = lhs_a - rhs_a;
        let lhs_b: u64 = fb / 2 + 6 * (black_gap as u64) + 2 * bkw + ga + gs;
        let rhs_b: u64 = class_f as u64 + gap as u64 + class_f as u64 + gap as u64 + class_f
            as u64 + gap as u64;
        if lhs_b < rhs_b {
            return None;
        }
        let b_blind: u64 = lhs_b - rhs_b;
        if !(bkw <= 65535 && gs <= 65535 && ckw <= 65535 && ga <= 65535 && fb <= 65535 && d_blind
            <= 65535 && e_blind <= 65535 && g_blind <= 65535 && a_blind <= 65535 && b_blind
            <= 65535) {
            return None;
        }
        Some(
            Top {
                black_gap: black_gap,
                cde_key_width: ckw as u16,
                cde_black_key_width: bkw as u16,
                d_left_blind_width: d_blind as u16,
                e_left_blind_width: e_blind as u16,
                black_fs_as_width: bkw as u16,
                black_gs_width: gs as u16,
                ga_white_width: ga as u16,
                fb_white_width: fb as u16,
                g_left_blind_width: g_blind as u16,
                a_left_blind_width: a_blind as u16,
                b_left_blind_width: b_blind as u16,
                class_c: class_c,
                class_d: class_d,
                class_e: class_c,
                class_f: class_f,
                class_g: class_f,
                class_a: class_f,
                class_b: class_f,
                class_gap: gap,
            },
        )
    }

    /// Computes the per-class breakdown from the width solver's state,
    /// exactly as [`spec_top`] describes.
    #[verifier::rlimit(100)]
    #[verifier::spinoff_prover]
    pub fn calculate(kb: &KeyboardBuilder, base: &Base) -> (r: Result<Top, SolverInvariantError>)
        requires
            kb.wf(),
        ensures
            match r {
                Ok(t) => spec_top(*kb, base@) == Some(t@),
                Err(_) => spec_top(*kb, base@) is None,
            },
    {
        let bk: u64 = base.black_key_min as u64;
        let gap: u64 = base.identical_gap as u64;
        let class_c: u16 = if base.cde_keys_enlarged {
            base.width_cde
        } else {
            base.identical_key
        };
        let class_d: u16 = if base.d_key_enlarged {
            base.width_d
        } else if base.cde_keys_enlarged {
            base.width_cde
        } else {
            base.identical_key
        };
        let class_f: u16 = if base.fgab_keys_enlarged {
            base.width_fgab
        } else {
            base.identical_key
        };
        let cde_w: u64 = class_c as u64 + class_d as u64 + class_c as u64 + 2 * gap;
        let fgab_w: u64 = 4 * (class_f as u64) + 3 * gap;
        let black_gap: u64 = if kb.need_black_gap {
            gap
        } else {
            0
        };
        proof {
            assert(cde_w as int == cde_span(base@));
            assert(fgab_w as int == fgab_span(base@));
        }
        let stage_one = Self::black_widths(bk, cde_w, fgab_w, black_gap);
        let (bkw, ckw, gs, fw): (u64, u64, u64, u64) = match stage_one {
            Some(t) => t,
            None => {
                return Err(SolverInvariantError);
            },
        };
        let stage_two = Self::pair_widths(
            fw,
            kb.white_key_small_width_ga_10um,
            kb.white_key_small_width_fb_10um,
        );
        let (ga, fb): (u64, u64) = match stage_two {
            Some(t) => t,
            None => {
                return Err(SolverInvariantError);
            },
        };
        match Self::blinds(
            base.identical_gap,
            black_gap as u16,
            class_c,
            class_d,
            class_f,
            bkw,
            ckw,
            gs,
            ga,
            fb,
        ) {
            Some(t) => {
                proof {
                    assert(spec_top(*kb, base@) == Some(t@));
                }
                Ok(t)
            },
            None => {
                proof {
                    assert(spec_top(*kb, base@) is None);
                }
                Err(SolverInvariantError)
            },
        }
    }

    /// Whether the sub-widths required no asymmetry between the outer and
    /// the middle black key of the F-G-A-B group.
    pub fn is_perfect(&self) -> (r: bool)
        ensures
            r == (self@.black_fs_as_width == self@.black_gs_width),
    {
        self.black_fs_as_width == self.black_gs_width
    }
}

/// Whether `get_top_for` accepts this distribution entry: a white key whose
/// width is at least its class's base width, with the widened visible part
/// still fitting 16 bits.
pub open spec fn top_for_ok(t: TopModel, el: ResultElement) -> bool {
    match el {
        ResultElement::Key(w, k) => {
            let c = k % 12;
            if c == 0 {
                w >= t.class_c && t.cde_key_width + (w - t.class_c) <= 65535
            } else if c == 2 {
                w >= t.class_d && t.cde_key_width + (w - t.class_d) <= 65535
            } else if c == 4 {
                w >= t.class_e && t.cde_key_width + (w - t.class_e) <= 65535
            } else if c == 5 {
                w >= t.class_f && t.fb_white_width / 2 + (w - t.class_f) <= 65535
            } else if c == 7 {
                w >= t.class_g && t.ga_white_width / 2 + (w - t.class_g) <= 65535
            } else if c == 9 {
                w >= t.class_a && t.ga_white_width / 2 + (w - t.class_a) <= 65535
            } else if c == 11 {
                w >= t.class_b && t.fb_white_width / 2 + (w - t.class_b) <= 65535
            } else {
                false
            }
        },
        ResultElement::Gap(_) => false,
    }
}

/// The upper-band breakdown of one white key unit: the class's sub-widths,
/// with the visible part widened by the pixels this instance gained over
/// its class's base width.
pub open spec fn spec_top_for(t: TopModel, el: ResultElement) -> TopResultElement {
    match el {
        ResultElement::Key(w, k) => {
            let c = k % 12;
            if c == 0 {
                TopResultElement::WhiteGapBlack(
                    (t.cde_key_width + (w - t.class_c)) as u16,
                    t.black_gap as u16,
                    t.cde_black_key_width as u16,
                )
            } else if c == 2 {
                TopResultElement::BlindWhiteGapBlack(
                    t.d_left_blind_width as u16,
                    (t.cde_key_width + (w - t.class_d)) as u16,
                    t.black_gap as u16,
                    t.cde_black_key_width as u16,
                )
            } else if c == 4 {
                TopResultElement::BlindWhite(
                    t.e_left_blind_width as u16,
                    (t.cde_key_width + (w - t.class_e)) as u16,
                )
            } else if c == 5 {
                TopResultElement::WhiteGapBlack(
                    (t.fb_white_width / 2 + (w - t.class_f)) as u16,
                    t.black_gap as u16,
                    t.black_fs_as_width as u16,
                )
            } else if c == 7 {
                TopResultElement::BlindWhiteGapBlack(
                    t.g_left_blind_width as u16,
                    (t.ga_white_width / 2 + (w - t.class_g)) as u16,
                    t.black_gap as u16,
                    t.black_gs_width as u16,
                )
            } else if c == 9 {
                TopResultElement::BlindWhiteGapBlack(
                    t.a_left_blind_width as u16,
                    (t.ga_white_width / 2 + (w - t.class_a)) as u16,
                    t.black_gap as u16,
                    t.black_fs_as_width as u16,
                )
            } else if c == 11 {
                TopResultElement::BlindWhite(
                    t.b_left_blind_width as u16,
                    (t.fb_white_width / 2 + (w - t.class_b)) as u16,
                )
            } else {
                TopResultElement::BlindWhite(0u16, 0u16)
            }
        },
        ResultElement::Gap(_) => TopResultElement::BlindWhite(0u16, 0u16),
    }
}

impl Top {
    /// The upper-band breakdown for one white key unit of the solved
    /// distribution.
    pub fn get_top_for(&self, el: &ResultElement) -> (r: TopResultElement)
        requires
            top_for_ok(self@, *el),
        ensures
            r == spec_top_for(self@, *el),
    {
        match el {
            ResultElement::Key(w, k) => {
                let c = k % 12;
                if c == 0 {
                    let corr = *w - self.class_c;
                    TopResultElement::WhiteGapBlack(
                        self.cde_key_width + corr,
                        self.black_gap,
                        self.cde_black_key_width,
                    )
                } else if c == 2 {
                    let corr = *w - self.class_d;
                    TopResultElement::BlindWhiteGapBlack(
                        self.d_left_blind_width,
                        self.cde_key_width + corr,
                        self.black_gap,
                        self.cde_black_key_width,
                    )
                } else if c == 4 {
                    let corr = *w - self.class_e;
                    TopResultElement::BlindWhite(
                        self.e_left_blind_width,
                        self.cde_key_width + corr,
                    )
                } else if c == 5 {
                    let corr = *w - self.class_f;
                    TopResultElement::WhiteGapBlack(
                        self.fb_white_width / 2 + corr,
                        self.black_gap,
                        self.black_fs_as_width,
                    )
                } else if c == 7 {
                    let corr = *w - self.class_g;
                    TopResultElement::BlindWhiteGapBlack(
                        self.g_left_blind_width,
                        self.ga_white_width / 2 + corr,
                        self.black_gap,
                        self.black_gs_width,
                    )
                } else if c == 9 {
                    let corr = *w - self.class_a;
                    TopResultElement::BlindWhiteGapBlack(
                        self.a_left_blind_width,
                        self.ga_white_width / 2 + corr,
                        self.black_gap,
                        self.black_fs_as_width,
                    )
                } else {
                    let corr = *w - self.class_b;
                    TopResultElement::BlindWhite(
                        self.b_left_blind_width,
                        self.fb_white_width / 2 + corr,
                    )
                }
            },
            ResultElement::Gap(_) => TopResultElement::BlindWhite(0, 0),
        }
    }
}

impl Top {
    /// Whether [`Top::get_top_for`] accepts this distribution entry.
    pub fn accepts(&self, el: &ResultElement) -> (b: bool)
        ensures
            b == top_for_ok(self@, *el),
    {
        match el {
            ResultElement::Key(w, k) => {
                let c = k % 12;
                if c == 0 {
                    *w >= self.class_c && self.cde_key_width as u32 + (*w - self.class_c) as u32
                        <= 65535
                } else if c == 2 {
                    *w >= self.class_d && self.cde_key_width as u32 + (*w - self.class_d) as u32
                        <= 65535
                } else if c == 4 {
                    *w >= self.class_e && self.cde_key_width as u32 + (*w - self.class_e) as u32
                        <= 65535
                } else if c == 5 {
                    *w >= self.class_f && (self.fb_white_width / 2) as u32 + (*w - self.class_f)
                        as u32 <= 65535
                } else if c == 7 {
                    *w >= self.class_g && (self.ga_white_width / 2) as u32 + (*w - self.class_g)
                        as u32 <= 65535
                } else if c == 9 {
                    *w >= self.class_a && (self.ga_white_width / 2) as u32 + (*w - self.class_a)
                        as u32 <= 65535
                } else if c == 11 {
                    *w >= self.class_b && (self.fb_white_width / 2) as u32 + (*w - self.class_b)
                        as u32 <= 65535
                } else {
                    false
                }
            },
            ResultElement::Gap(_) => false,
        }
    }
}

/// The three visible C-D-E sub-widths, the two black keys and the four
/// black gaps exactly fill one C-D-E span: the remainder adjustment makes
/// the division by three exact.
pub proof fn lemma_cde_subwidths_exact(kb: KeyboardBuilder, bm: BaseModel, tm: TopModel)
    requires
        spec_top(kb, bm) == Some(tm),
    ensures
        3 * tm.cde_key_width + 2 * tm.cde_black_key_width + 4 * tm.black_gap == cde_span(bm),
{
    let bk = bm.black_key_min;
    let cde_w = cde_span(bm);
    let bg = tm.black_gap;
    let x = cde_w - 2 * bk - 4 * bg;
    let bkw = tm.cde_black_key_width;
    let y = cde_w - 2 * bkw - 4 * bg;
    vstd::arithmetic::div_mod::lemma_fundamental_div_mod(x, 3);
    let q = x / 3;
    if x % 3 == 0 {
        assert(y == 3 * q);
        vstd::arithmetic::div_mod::lemma_div_multiples_vanish(q, 3);
    } else if x % 3 == 1 {
        assert(y == 3 * (q - 1));
        vstd::arithmetic::div_mod::lemma_div_multiples_vanish(q - 1, 3);
    } else {
        assert(y == 3 * q);
        vstd::arithmetic::div_mod::lemma_div_multiples_vanish(q, 3);
    }
    assert(3 * tm.cde_key_width == y);
}

/// The F/B and G/A pair widths are even and, with the three black keys and
/// the six black gaps, exactly fill one F-G-A-B span.
#[verifier::rlimit(100)]
pub proof fn lemma_fgab_subwidths_exact(kb: KeyboardBuilder, bm: BaseModel, tm: TopModel)
    requires
        spec_top(kb, bm) == Some(tm),
    ensures
        tm.fb_white_width % 2 == 0,
        tm.ga_white_width % 2 == 0,
        tm.fb_white_width + tm.ga_white_width + 2 * tm.black_fs_as_width + tm.black_gs_width + 6
            * tm.black_gap == fgab_span(bm),
{
    let bg = tm.black_gap;
    let fgab_w = fgab_span(bm);
    match top_black_widths(bm.black_key_min, cde_span(bm), fgab_w, bg) {
        Some((bkw, ckw, gs, fw)) => {
            assert(fw % 2 == 0);
            assert(fw == fgab_w - 2 * bkw - gs - 6 * bg);
            let ga10 = kb.white_key_small_width_ga_10um as int;
            let fb10 = kb.white_key_small_width_fb_10um as int;
            match top_pair_widths(fw, ga10, fb10) {
                Some((ga, fb)) => {
                    assert(ga + fb == fw);
                    assert(fb % 2 == 0);
                    assert(ga % 2 == 0);
                    assert(tm.ga_white_width == ga && tm.fb_white_width == fb);
                    assert(tm.black_fs_as_width == bkw && tm.black_gs_width == gs);
                },
                None => {
                    assert(false);
                },
            }
        },
        None => {
            assert(false);
        },
    }
}

} // verus!
