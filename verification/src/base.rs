//! The width solver: divides the requested total width among the white keys
//! and the gaps between them.
//!
//! The solver seeds every key and gap with the largest uniform widths that
//! fit, then resolves the remaining pixels by an ordered list of heuristics,
//! each of which adds one pixel to every member of a structurally defined
//! subset of the elements.  The whole search is mirrored by spec functions
//! ([`spec_seed`], [`step`], [`solve`]), and the executable solver is proved
//! to return exactly the state those functions describe.

use vstd::prelude::*;

use crate::KeyboardBuilder;
use crate::SolverInvariantError;
use crate::spec_is_white;

verus! {

/// One element of the solved width distribution: a white key with its width
/// and MIDI key number, or a gap with its width.  The full sequence
/// alternates gap, key, gap, ..., key, gap.
#[derive(Clone, Copy, Debug, PartialEq, Eq, Structural)]
pub enum ResultElement {
    Key(u16, u8),
    Gap(u16),
}

/// The internal category of one element.  A category does not store its
/// width; the widths live in one shared field of [`Base`] per category, so
/// that a heuristic can widen a whole category at once.
#[derive(Clone, Copy, Debug)]
pub enum Element {
    IdenticalWhite(u8),
    IdenticalGap,
    GapBC,
    GapEF,
    KeyD(u8),
    KeyCDE(u8),
    KeyFGAB(u8),
    OuterGap,
    EnlargedOuterLeftKey(u8),
    EnlargedOuterRightKey(u8),
}

/// The mathematical state of the width solver.
pub ghost struct BaseModel {
    pub width: int,
    pub nr_of_white_keys: int,
    pub elements: Seq<Element>,
    pub key_gap_min: int,
    pub kw_width_min: int,
    pub black_key_min: int,

    pub identical_key: int,
    pub identical_gap: int,
    pub gap_bc: int,
    pub gap_ef: int,
    pub outer_gaps: int,
    pub outer_left_key: int,
    pub outer_right_key: int,
    pub width_d: int,
    pub width_cde: int,
    pub width_fgab: int,

    pub nr_of_c: int,
    pub nr_of_d: int,
    pub nr_of_e: int,
    pub nr_of_cde: int,
    pub nr_of_f: int,
    pub nr_of_g: int,
    pub nr_of_a: int,
    pub nr_of_b: int,
    pub nr_of_fgab: int,
    pub nr_of_bc_gaps: int,
    pub nr_of_ef_gaps: int,

    pub outer_gaps_enlarged: bool,
    pub bc_gaps_enlarged: bool,
    pub ef_gaps_enlarged: bool,
    pub d_key_enlarged: bool,
    pub alternating_d_key_enlarged: bool,
    pub end_keys_enlarged: bool,
    pub cde_keys_enlarged: bool,
    pub fgab_keys_enlarged: bool,
}

/// Number of keys k in `[from, end)` with `k % 12 == class`.
pub open spec fn count_class(from: int, end: int, class: int) -> int
    decreases end - from,
{
    if end <= from {
        0
    } else {
        count_class(from, end - 1, class) + if (end - 1) % 12 == class {
            1int
        } else {
            0int
        }
    }
}

/// Number of white keys in `[from, end)`.
pub open spec fn count_white(from: int, end: int) -> int
    decreases end - from,
{
    if end <= from {
        0
    } else {
        count_white(from, end - 1) + if spec_is_white(end - 1) {
            1int
        } else {
            0int
        }
    }
}

/// The seeded element sequence for the white keys in `[from, end)`: one gap,
/// then a key and a gap for every white key.
pub open spec fn seed_elements(from: int, end: int) -> Seq<Element>
    decreases end - from,
{
    if end <= from {
        seq![Element::IdenticalGap]
    } else {
        seed_elements(from, end - 1) + if spec_is_white(end - 1) {
            seq![Element::IdenticalWhite((end - 1) as u8), Element::IdenticalGap]
        } else {
            Seq::<Element>::empty()
        }
    }
}

/// The width that the solver state assigns to one element.
pub open spec fn el_width(m: BaseModel, e: Element) -> int {
    match e {
        Element::IdenticalWhite(_) => m.identical_key,
        Element::IdenticalGap => m.identical_gap,
        Element::GapBC => m.gap_bc,
        Element::GapEF => m.gap_ef,
        Element::KeyD(_) => m.width_d,
        Element::KeyCDE(_) => m.width_cde,
        Element::KeyFGAB(_) => m.width_fgab,
        Element::OuterGap => m.outer_gaps,
        Element::EnlargedOuterLeftKey(_) => m.outer_left_key,
        Element::EnlargedOuterRightKey(_) => m.outer_right_key,
    }
}

/// The summed width of a sequence of elements under a solver state.
pub open spec fn sum_el(m: BaseModel, s: Seq<Element>) -> int
    decreases s.len(),
{
    if s.len() == 0 {
        0
    } else {
        sum_el(m, s.drop_last()) + el_width(m, s.last())
    }
}

/// The summed width of all elements of the state.
pub open spec fn total_width(m: BaseModel) -> int {
    sum_el(m, m.elements)
}

/// The width still to be distributed.
pub open spec fn delta_of(m: BaseModel) -> int {
    m.width - total_width(m)
}

/// The initial solver state for a validated configuration, or `None` where
/// the uniform seed widths cannot bracket the requested width.
pub open spec fn spec_seed(kb: KeyboardBuilder) -> Option<BaseModel> {
    let from = kb.left_white_key as int;
    let end = kb.right_white_key + 1;
    let w = kb.width as int;
    let n = count_white(from, end);
    let key_gap_10um = 12627 - 8000 - 4500;
    let keyboard_width_10um = (2215 + key_gap_10um) * n + key_gap_10um;
    let gap_min = key_gap_10um * w / keyboard_width_10um;
    let kw_min_0 = 2215 * w / keyboard_width_10um;
    let kw_min = if n * (kw_min_0 + 1) + (n + 1) * gap_min <= w {
        kw_min_0 + 1
    } else {
        kw_min_0
    };
    let min_width = n * kw_min + (n + 1) * gap_min;
    let max_width = n * (kw_min + 1) + (n + 1) * gap_min;
    if min_width <= w && w <= max_width {
        Some(
            BaseModel {
                width: w,
                nr_of_white_keys: n,
                elements: seed_elements(from, end),
                key_gap_min: gap_min,
                kw_width_min: kw_min,
                black_key_min: 1100 * w / keyboard_width_10um,
                identical_key: kw_min,
                identical_gap: gap_min,
                gap_bc: 0,
                gap_ef: 0,
                outer_gaps: 0,
                outer_left_key: 0,
                outer_right_key: 0,
                width_d: 0,
                width_cde: 0,
                width_fgab: 0,
                nr_of_c: count_class(from, end, 0),
                nr_of_d: count_class(from, end, 2),
                nr_of_e: count_class(from, end, 4),
                nr_of_cde: count_class(from + 4, end, 4),
                nr_of_f: count_class(from, end, 5),
                nr_of_g: count_class(from, end, 7),
                nr_of_a: count_class(from, end, 9),
                nr_of_b: count_class(from, end, 11),
                nr_of_fgab: count_class(from + 6, end, 11),
                nr_of_bc_gaps: count_class(from + 1, end, 0),
                nr_of_ef_gaps: count_class(from + 1, end, 5),
                outer_gaps_enlarged: false,
                bc_gaps_enlarged: false,
                ef_gaps_enlarged: false,
                d_key_enlarged: false,
                alternating_d_key_enlarged: false,
                end_keys_enlarged: false,
                cde_keys_enlarged: false,
                fgab_keys_enlarged: false,
            },
        )
    } else {
        None
    }
}

/// Whether `x + 1` still fits the 16-bit width fields.
pub open spec fn can_bump(x: int) -> bool {
    x + 1 <= 65535
}

/// Octave-relative classes F, G, A, B.
pub open spec fn is_fgab_class(k: u8) -> bool {
    k % 12 == 5 || k % 12 == 7 || k % 12 == 9 || k % 12 == 11
}

/// Octave-relative classes C, D, E.
pub open spec fn is_cde_class(k: u8) -> bool {
    k % 12 == 0 || k % 12 == 2 || k % 12 == 4
}

/// Every uniform white key of class F, G, A or B becomes an enlarged
/// F-G-A-B key.
pub open spec fn fgab_elements(s: Seq<Element>) -> Seq<Element> {
    Seq::new(
        s.len(),
        |i: int|
            match s[i] {
                Element::IdenticalWhite(k) => if 1 <= i && i < s.len() - 1 && is_fgab_class(k) {
                    Element::KeyFGAB(k)
                } else {
                    s[i]
                },
                _ => s[i],
            },
    )
}

/// Every uniform white key of class C, D or E becomes an enlarged C-D-E key.
pub open spec fn cde_elements(s: Seq<Element>) -> Seq<Element> {
    Seq::new(
        s.len(),
        |i: int|
            match s[i] {
                Element::IdenticalWhite(k) => if 1 <= i && i < s.len() - 1 && is_cde_class(k) {
                    Element::KeyCDE(k)
                } else {
                    s[i]
                },
                _ => s[i],
            },
    )
}

/// Every gap standing directly before a uniform C key (except a C at the
/// very left) becomes an enlarged B-to-C gap.
pub open spec fn bc_gap_elements(s: Seq<Element>) -> Seq<Element> {
    Seq::new(
        s.len(),
        |j: int|
            if 2 <= j && j + 1 < s.len() - 1 && (match s[j + 1] {
                Element::IdenticalWhite(k) => k % 12 == 0,
                _ => false,
            }) {
                Element::GapBC
            } else {
                s[j]
            },
    )
}

/// Every gap standing directly before an F key (except an F at the very
/// left) becomes an enlarged E-to-F gap.
pub open spec fn ef_gap_elements(s: Seq<Element>) -> Seq<Element> {
    Seq::new(
        s.len(),
        |j: int|
            if 2 <= j && j + 1 < s.len() - 1 && (match s[j + 1] {
                Element::IdenticalWhite(k) => k % 12 == 5,
                Element::KeyFGAB(k) => k % 12 == 5,
                _ => false,
            }) {
                Element::GapEF
            } else {
                s[j]
            },
    )
}

/// Every D key (except a D at the very left) becomes an enlarged D key.
pub open spec fn d_key_elements(s: Seq<Element>) -> Seq<Element> {
    Seq::new(
        s.len(),
        |i: int|
            if 3 <= i && i < s.len() - 1 {
                match s[i] {
                    Element::IdenticalWhite(k) => if k % 12 == 2 {
                        Element::KeyD(k)
                    } else {
                        s[i]
                    },
                    Element::KeyCDE(k) => if k % 12 == 2 {
                        Element::KeyD(k)
                    } else {
                        s[i]
                    },
                    _ => s[i],
                }
            } else {
                s[i]
            },
    )
}

/// A D key that the alternating heuristic walks over, with its key number.
pub open spec fn d_match(e: Element) -> Option<u8> {
    match e {
        Element::IdenticalWhite(k) => if k % 12 == 2 {
            Some(k)
        } else {
            None
        },
        Element::KeyCDE(k) => if k % 12 == 2 {
            Some(k)
        } else {
            None
        },
        _ => None,
    }
}

/// Number of D keys the alternating heuristic has walked over in positions
/// `[3, i)` (positions at the very right edge excluded).
pub open spec fn d_matches_before(s: Seq<Element>, i: int) -> int
    decreases i,
{
    if i <= 3 {
        0
    } else {
        d_matches_before(s, i - 1) + if i - 1 < s.len() - 1 && d_match(s[i - 1]) is Some {
            1int
        } else {
            0int
        }
    }
}

/// Every other D key becomes an enlarged D key; the starting phase is
/// `enlarge0`, toggled before each D key is considered.
pub open spec fn alt_d_elements(s: Seq<Element>, enlarge0: bool) -> Seq<Element> {
    Seq::new(
        s.len(),
        |i: int|
            if 3 <= i && i < s.len() - 1 {
                match d_match(s[i]) {
                    Some(k) => if enlarge0 != ((d_matches_before(s, i) + 1) % 2 == 1) {
                        Element::KeyD(k)
                    } else {
                        s[i]
                    },
                    None => s[i],
                }
            } else {
                s[i]
            },
    )
}

/// Marks the leftmost key as the enlarged outer left key, one pixel wider
/// than it was; `None` where the element there has an unexpected category or
/// the width would overflow.
pub open spec fn enlarge_left(m: BaseModel) -> Option<BaseModel> {
    match m.elements[1] {
        Element::IdenticalWhite(k) => if can_bump(m.identical_key) {
            Some(
                BaseModel {
                    outer_left_key: m.identical_key + 1,
                    elements: m.elements.update(1, Element::EnlargedOuterLeftKey(k)),
                    ..m
                },
            )
        } else {
            None
        },
        Element::KeyCDE(k) => if can_bump(m.width_cde) {
            Some(
                BaseModel {
                    outer_left_key: m.width_cde + 1,
                    elements: m.elements.update(1, Element::EnlargedOuterLeftKey(k)),
                    ..m
                },
            )
        } else {
            None
        },
        Element::KeyFGAB(k) => if can_bump(m.width_fgab) {
            Some(
                BaseModel {
                    outer_left_key: m.width_fgab + 1,
                    elements: m.elements.update(1, Element::EnlargedOuterLeftKey(k)),
                    ..m
                },
            )
        } else {
            None
        },
        Element::EnlargedOuterLeftKey(k) => if can_bump(m.outer_left_key) {
            Some(
                BaseModel {
                    outer_left_key: m.outer_left_key + 1,
                    elements: m.elements.update(1, Element::EnlargedOuterLeftKey(k)),
                    ..m
                },
            )
        } else {
            None
        },
        _ => None,
    }
}

/// Marks the rightmost key as the enlarged outer right key, one pixel wider
/// than it was.
pub open spec fn enlarge_right(m: BaseModel) -> Option<BaseModel> {
    let j = m.elements.len() - 2;
    match m.elements[j] {
        Element::IdenticalWhite(k) => if can_bump(m.identical_key) {
            Some(
                BaseModel {
                    outer_right_key: m.identical_key + 1,
                    elements: m.elements.update(j, Element::EnlargedOuterRightKey(k)),
                    ..m
                },
            )
        } else {
            None
        },
        Element::KeyCDE(k) => if can_bump(m.width_cde) {
            Some(
                BaseModel {
                    outer_right_key: m.width_cde + 1,
                    elements: m.elements.update(j, Element::EnlargedOuterRightKey(k)),
                    ..m
                },
            )
        } else {
            None
        },
        Element::KeyFGAB(k) => if can_bump(m.width_fgab) {
            Some(
                BaseModel {
                    outer_right_key: m.width_fgab + 1,
                    elements: m.elements.update(j, Element::EnlargedOuterRightKey(k)),
                    ..m
                },
            )
        } else {
            None
        },
        Element::EnlargedOuterRightKey(k) => if can_bump(m.outer_right_key) {
            Some(
                BaseModel {
                    outer_right_key: m.outer_right_key + 1,
                    elements: m.elements.update(j, Element::EnlargedOuterRightKey(k)),
                    ..m
                },
            )
        } else {
            None
        },
        _ => None,
    }
}

/// Outcome of trying the heuristics once: the first applicable heuristic
/// fired, none was applicable, or the state was one the heuristics cannot
/// handle (a width about to overflow, a remainder taken modulo zero, an
/// element of an unexpected category at an outer key position).
pub ghost enum StepRes {
    Fired(BaseModel),
    Stuck,
    Broken,
}

/// The edge heuristics: outer gaps, outermost keys, alternating D keys.
pub open spec fn step_edge(m: BaseModel) -> StepRes {
    let d = delta_of(m);
    if d <= 4 && !m.outer_gaps_enlarged {
        if can_bump(m.identical_gap) {
            let s1 = m.elements.update(0, Element::OuterGap);
            let s2 = if d % 2 == 0 {
                s1.update(s1.len() - 1, Element::OuterGap)
            } else {
                s1
            };
            StepRes::Fired(
                BaseModel {
                    outer_gaps_enlarged: true,
                    outer_gaps: m.identical_gap + 1,
                    elements: s2,
                    ..m
                },
            )
        } else {
            StepRes::Broken
        }
    } else if d == 2 && !m.end_keys_enlarged {
        match enlarge_left(m) {
            Some(m1) => match enlarge_right(m1) {
                Some(m2) => StepRes::Fired(BaseModel { end_keys_enlarged: true, ..m2 }),
                None => StepRes::Broken,
            },
            None => StepRes::Broken,
        }
    } else if d >= m.nr_of_d / 2 && !m.d_key_enlarged && !m.alternating_d_key_enlarged {
        let base = if m.cde_keys_enlarged {
            m.width_cde
        } else {
            m.identical_key
        };
        if can_bump(base) {
            StepRes::Fired(
                BaseModel {
                    alternating_d_key_enlarged: true,
                    width_d: base + 1,
                    elements: alt_d_elements(m.elements, d == m.nr_of_d / 2),
                    ..m
                },
            )
        } else {
            StepRes::Broken
        }
    } else {
        StepRes::Stuck
    }
}

/// The category enlargements: F-G-A-B keys, C-D-E keys, B-to-C gaps,
/// E-to-F gaps, D keys; after them the edge heuristics.
pub open spec fn step_enlarge(m: BaseModel) -> StepRes {
    let d = delta_of(m);
    if d >= m.nr_of_f + m.nr_of_g + m.nr_of_a + m.nr_of_b && !m.fgab_keys_enlarged {
        if can_bump(m.identical_key) {
            StepRes::Fired(
                BaseModel {
                    fgab_keys_enlarged: true,
                    width_fgab: m.identical_key + 1,
                    elements: fgab_elements(m.elements),
                    ..m
                },
            )
        } else {
            StepRes::Broken
        }
    } else if d >= m.nr_of_c + m.nr_of_d + m.nr_of_e && !m.cde_keys_enlarged {
        if can_bump(m.identical_key) {
            StepRes::Fired(
                BaseModel {
                    cde_keys_enlarged: true,
                    width_cde: m.identical_key + 1,
                    elements: cde_elements(m.elements),
                    ..m
                },
            )
        } else {
            StepRes::Broken
        }
    } else if d >= m.nr_of_bc_gaps && !m.bc_gaps_enlarged {
        if can_bump(m.identical_gap) {
            StepRes::Fired(
                BaseModel {
                    bc_gaps_enlarged: true,
                    gap_bc: m.identical_gap + 1,
                    elements: bc_gap_elements(m.elements),
                    ..m
                },
            )
        } else {
            StepRes::Broken
        }
    } else if d >= m.nr_of_ef_gaps && !m.ef_gaps_enlarged {
        if can_bump(m.identical_gap) {
            StepRes::Fired(
                BaseModel {
                    ef_gaps_enlarged: true,
                    gap_ef: m.identical_gap + 1,
                    elements: ef_gap_elements(m.elements),
                    ..m
                },
            )
        } else {
            StepRes::Broken
        }
    } else if d >= m.nr_of_d && !m.d_key_enlarged && !m.alternating_d_key_enlarged {
        let base = if m.cde_keys_enlarged {
            m.width_cde
        } else {
            m.identical_key
        };
        if can_bump(base) {
            StepRes::Fired(
                BaseModel {
                    d_key_enlarged: true,
                    width_d: base + 1,
                    elements: d_key_elements(m.elements),
                    ..m
                },
            )
        } else {
            StepRes::Broken
        }
    } else {
        step_edge(m)
    }
}

/// One round of the heuristic priority list, applied to the state `m`:
/// first the uniform whole-row bumps, then the category enlargements.
pub open spec fn step(m: BaseModel) -> StepRes {
    let d = delta_of(m);
    let n = m.nr_of_white_keys;
    if d == n + 1 {
        if can_bump(m.identical_gap) {
            StepRes::Fired(BaseModel { identical_gap: m.identical_gap + 1, ..m })
        } else {
            StepRes::Broken
        }
    } else if d == n {
        if can_bump(m.identical_key) {
            StepRes::Fired(BaseModel { identical_key: m.identical_key + 1, ..m })
        } else {
            StepRes::Broken
        }
    } else if d >= n + 1 && m.nr_of_cde == 0 {
        StepRes::Broken
    } else if d >= n + 1 && (d - n - 1) % m.nr_of_cde <= 4 {
        if can_bump(m.identical_gap) {
            StepRes::Fired(BaseModel { identical_gap: m.identical_gap + 1, ..m })
        } else {
            StepRes::Broken
        }
    } else if d >= n + 1 && m.nr_of_fgab == 0 {
        StepRes::Broken
    } else if d >= n + 1 && (d - n - 1) % m.nr_of_fgab <= 4 {
        if can_bump(m.identical_gap) {
            StepRes::Fired(BaseModel { identical_gap: m.identical_gap + 1, ..m })
        } else {
            StepRes::Broken
        }
    } else if d >= n && m.nr_of_cde == 0 {
        StepRes::Broken
    } else if d >= n && (d - n) % m.nr_of_cde <= 4 {
        if can_bump(m.identical_key) {
            StepRes::Fired(BaseModel { identical_key: m.identical_key + 1, ..m })
        } else {
            StepRes::Broken
        }
    } else if d >= n && m.nr_of_fgab == 0 {
        StepRes::Broken
    } else if d >= n && (d - n) % m.nr_of_fgab <= 4 {
        if can_bump(m.identical_key) {
            StepRes::Fired(BaseModel { identical_key: m.identical_key + 1, ..m })
        } else {
            StepRes::Broken
        }
    } else {
        step_enlarge(m)
    }
}

/// The fixed-point driver: resolve the remaining width to zero by repeatedly
/// applying the first matching heuristic.  `None` reports a stalled search,
/// an overlong search, or a state whose summed width exceeds the target.
pub open spec fn solve(m: BaseModel, last_delta: int, fuel: nat) -> Option<BaseModel>
    decreases fuel,
{
    let d = delta_of(m);
    if total_width(m) > m.width {
        None
    } else if d == 0 {
        Some(m)
    } else if d == last_delta {
        None
    } else if fuel == 0 {
        None
    } else {
        match step(m) {
            StepRes::Fired(m2) => solve(m2, d, (fuel - 1) as nat),
            _ => None,
        }
    }
}

/// Enough driver iterations that only a genuine stall can end the search.
pub open spec fn base_fuel(m: BaseModel) -> nat {
    (2 * m.width + 4) as nat
}

/// The solved width distribution of a configuration: the seed state driven
/// to a zero remainder, or `None` where seeding or the search failed.
pub open spec fn spec_base(kb: KeyboardBuilder) -> Option<BaseModel> {
    match spec_seed(kb) {
        Some(m) => solve(m, 0, base_fuel(m)),
        None => None,
    }
}

/// No heuristic beyond the uniform whole-row bumps has fired.
pub open spec fn spec_perfect(m: BaseModel) -> bool {
    &&& !m.fgab_keys_enlarged
    &&& !m.cde_keys_enlarged
    &&& !m.bc_gaps_enlarged
    &&& !m.ef_gaps_enlarged
    &&& !m.d_key_enlarged
    &&& !m.outer_gaps_enlarged
    &&& !m.end_keys_enlarged
    &&& !m.alternating_d_key_enlarged
}

/// The width solver's working state.  `calculate` seeds it, the heuristics
/// widen element categories until the total width matches the target, and
/// `result` reads the final distribution off.
pub struct Base {
    pub width: u16,
    pub nr_of_white_keys: u16,
    pub elements: Vec<Element>,
    pub key_gap_min: u16,
    pub kw_width_min: u16,
    pub black_key_min: u16,

    pub identical_key: u16,
    pub identical_gap: u16,
    pub gap_bc: u16,
    pub gap_ef: u16,
    pub outer_gaps: u16,
    pub outer_left_key: u16,
    pub outer_right_key: u16,
    pub width_d: u16,
    pub width_cde: u16,
    pub width_fgab: u16,

    pub nr_of_c: u16,
    pub nr_of_d: u16,
    pub nr_of_e: u16,
    pub nr_of_cde: u16,
    pub nr_of_f: u16,
    pub nr_of_g: u16,
    pub nr_of_a: u16,
    pub nr_of_b: u16,
    pub nr_of_fgab: u16,
    pub nr_of_bc_gaps: u16,
    pub nr_of_ef_gaps: u16,

    pub outer_gaps_enlarged: bool,
    pub bc_gaps_enlarged: bool,
    pub ef_gaps_enlarged: bool,
    pub d_key_enlarged: bool,
    pub alternating_d_key_enlarged: bool,
    pub end_keys_enlarged: bool,
    pub cde_keys_enlarged: bool,
    pub fgab_keys_enlarged: bool,
}

impl View for Base {
    type V = BaseModel;

    open spec fn view(&self) -> BaseModel {
        BaseModel {
            width: self.width as int,
            nr_of_white_keys: self.nr_of_white_keys as int,
            elements: self.elements@,
            key_gap_min: self.key_gap_min as int,
            kw_width_min: self.kw_width_min as int,
            black_key_min: self.black_key_min as int,
            identical_key: self.identical_key as int,
            identical_gap: self.identical_gap as int,
            gap_bc: self.gap_bc as int,
            gap_ef: self.gap_ef as int,
            outer_gaps: self.outer_gaps as int,
            outer_left_key: self.outer_left_key as int,
            outer_right_key: self.outer_right_key as int,
            width_d: self.width_d as int,
            width_cde: self.width_cde as int,
            width_fgab: self.width_fgab as int,
            nr_of_c: self.nr_of_c as int,
            nr_of_d: self.nr_of_d as int,
            nr_of_e: self.nr_of_e as int,
            nr_of_cde: self.nr_of_cde as int,
            nr_of_f: self.nr_of_f as int,
            nr_of_g: self.nr_of_g as int,
            nr_of_a: self.nr_of_a as int,
            nr_of_b: self.nr_of_b as int,
            nr_of_fgab: self.nr_of_fgab as int,
            nr_of_bc_gaps: self.nr_of_bc_gaps as int,
            nr_of_ef_gaps: self.nr_of_ef_gaps as int,
            outer_gaps_enlarged: self.outer_gaps_enlarged,
            bc_gaps_enlarged: self.bc_gaps_enlarged,
            ef_gaps_enlarged: self.ef_gaps_enlarged,
            d_key_enlarged: self.d_key_enlarged,
            alternating_d_key_enlarged: self.alternating_d_key_enlarged,
            end_keys_enlarged: self.end_keys_enlarged,
            cde_keys_enlarged: self.cde_keys_enlarged,
            fgab_keys_enlarged: self.fgab_keys_enlarged,
        }
    }
}

impl Base {
    /// Structural well-formedness: the element sequence alternates gap and
    /// key, so it holds one gap more than its keys.
    pub open spec fn wf(self) -> bool {
        &&& self.elements@.len() == 2 * self.nr_of_white_keys + 1
        &&& 1 <= self.nr_of_white_keys <= 128
    }
}

impl Base {
    /// The summed width of all elements in the current state.
    fn current_width(&self) -> (r: u64)
        requires
            self.elements@.len() <= 1000,
        ensures
            r == total_width(self@),
    {
        let n = self.elements.len();
        let mut acc: u64 = 0;
        let mut i: usize = 0;
        while i < n
            invariant
                i <= n,
                n == self.elements@.len() <= 1000,
                acc == sum_el(self@, self.elements@.take(i as int)),
                acc <= i * 65535,
            decreases n - i,
        {
            let w: u16 = match self.elements[i] {
                Element::IdenticalWhite(_) => self.identical_key,
                Element::IdenticalGap => self.identical_gap,
                Element::GapBC => self.gap_bc,
                Element::GapEF => self.gap_ef,
                Element::KeyD(_) => self.width_d,
                Element::KeyCDE(_) => self.width_cde,
                Element::KeyFGAB(_) => self.width_fgab,
                Element::OuterGap => self.outer_gaps,
                Element::EnlargedOuterLeftKey(_) => self.outer_left_key,
                Element::EnlargedOuterRightKey(_) => self.outer_right_key,
            };
            proof {
                assert(w as int == el_width(self@, self.elements@[i as int]));
                assert(self.elements@.take(i + 1).drop_last() =~= self.elements@.take(i as int));
                assert(self.elements@.take(i + 1).last() == self.elements@[i as int]);
            }
            acc = acc + w as u64;
            i = i + 1;
        }
        proof {
            assert(self.elements@.take(n as int) =~= self.elements@);
        }
        acc
    }

    /// Widens every uniform F, G, A and B key by marking it enlarged.
    fn map_fgab(v: &Vec<Element>) -> (r: Vec<Element>)
        ensures
            r@ == fgab_elements(v@),
    {
        let n = v.len();
        let mut r: Vec<Element> = Vec::new();
        let mut i: usize = 0;
        while i < n
            invariant
                i <= n,
                n == v@.len(),
                r@.len() == i,
                forall|j: int| 0 <= j < i ==> r@[j] == fgab_elements(v@)[j],
            decreases n - i,
        {
            let e = v[i];
            let out = match e {
                Element::IdenticalWhite(k) => {
                    if i >= 1 && i + 1 < n && (k % 12 == 5 || k % 12 == 7 || k % 12 == 9 || k % 12
                        == 11) {
                        Element::KeyFGAB(k)
                    } else {
                        e
                    }
                },
                _ => e,
            };
            r.push(out);
            i = i + 1;
        }
        proof {
            assert(r@ =~= fgab_elements(v@));
        }
        r
    }

    /// Widens every uniform C, D and E key by marking it enlarged.
    fn map_cde(v: &Vec<Element>) -> (r: Vec<Element>)
        ensures
            r@ == cde_elements(v@),
    {
        let n = v.len();
        let mut r: Vec<Element> = Vec::new();
        let mut i: usize = 0;
        while i < n
            invariant
                i <= n,
                n == v@.len(),
                r@.len() == i,
                forall|j: int| 0 <= j < i ==> r@[j] == cde_elements(v@)[j],
            decreases n - i,
        {
            let e = v[i];
            let out = match e {
                Element::IdenticalWhite(k) => {
                    if i >= 1 && i + 1 < n && (k % 12 == 0 || k % 12 == 2 || k % 12 == 4) {
                        Element::KeyCDE(k)
                    } else {
                        e
                    }
                },
                _ => e,
            };
            r.push(out);
            i = i + 1;
        }
        proof {
            assert(r@ =~= cde_elements(v@));
        }
        r
    }

    /// Widens every B-to-C gap by marking it enlarged.
    fn map_bc_gaps(v: &Vec<Element>) -> (r: Vec<Element>)
        ensures
            r@ == bc_gap_elements(v@),
    {
        let n = v.len();
        let mut r: Vec<Element> = Vec::new();
        let mut j: usize = 0;
        while j < n
            invariant
                j <= n,
                n == v@.len(),
                r@.len() == j,
                forall|i: int| 0 <= i < j ==> r@[i] == bc_gap_elements(v@)[i],
            decreases n - j,
        {
            let e = v[j];
            let convert = if j >= 2 && j + 1 < n - 1 {
                match v[j + 1] {
                    Element::IdenticalWhite(k) => k % 12 == 0,
                    _ => false,
                }
            } else {
                false
            };
            let out = if convert {
                Element::GapBC
            } else {
                e
            };
            r.push(out);
            j = j + 1;
        }
        proof {
            assert(r@ =~= bc_gap_elements(v@));
        }
        r
    }

    /// Widens every E-to-F gap by marking it enlarged.
    fn map_ef_gaps(v: &Vec<Element>) -> (r: Vec<Element>)
        ensures
            r@ == ef_gap_elements(v@),
    {
        let n = v.len();
        let mut r: Vec<Element> = Vec::new();
        let mut j: usize = 0;
        while j < n
            invariant
                j <= n,
                n == v@.len(),
                r@.len() == j,
                forall|i: int| 0 <= i < j ==> r@[i] == ef_gap_elements(v@)[i],
            decreases n - j,
        {
            let e = v[j];
            let convert = if j >= 2 && j + 1 < n - 1 {
                match v[j + 1] {
                    Element::IdenticalWhite(k) => k % 12 == 5,
                    Element::KeyFGAB(k) => k % 12 == 5,
                    _ => false,
                }
            } else {
                false
            };
            let out = if convert {
                Element::GapEF
            } else {
                e
            };
            r.push(out);
            j = j + 1;
        }
        proof {
            assert(r@ =~= ef_gap_elements(v@));
        }
        r
    }

    /// Widens every D key by marking it enlarged.
    fn map_d_keys(v: &Vec<Element>) -> (r: Vec<Element>)
        ensures
            r@ == d_key_elements(v@),
    {
        let n = v.len();
        let mut r: Vec<Element> = Vec::new();
        let mut i: usize = 0;
        while i < n
            invariant
                i <= n,
                n == v@.len(),
                r@.len() == i,
                forall|j: int| 0 <= j < i ==> r@[j] == d_key_elements(v@)[j],
            decreases n - i,
        {
            let e = v[i];
            let out = if i >= 3 && i + 1 < n {
                match e {
                    Element::IdenticalWhite(k) => if k % 12 == 2 {
                        Element::KeyD(k)
                    } else {
                        e
                    },
                    Element::KeyCDE(k) => if k % 12 == 2 {
                        Element::KeyD(k)
                    } else {
                        e
                    },
                    _ => e,
                }
            } else {
                e
            };
            r.push(out);
            i = i + 1;
        }
        proof {
            assert(r@ =~= d_key_elements(v@));
        }
        r
    }

    /// Widens every other D key, starting with the phase `enlarge0`, toggled
    /// before each D key is considered.
    fn map_alt_d_keys(v: &Vec<Element>, enlarge0: bool) -> (r: Vec<Element>)
        ensures
            r@ == alt_d_elements(v@, enlarge0),
    {
        let n = v.len();
        let mut r: Vec<Element> = Vec::new();
        let mut cnt: usize = 0;
        let mut i: usize = 0;
        while i < n
            invariant
                i <= n,
                n == v@.len(),
                r@.len() == i,
                cnt <= i,
                cnt == d_matches_before(v@, i as int),
                forall|j: int| 0 <= j < i ==> r@[j] == alt_d_elements(v@, enlarge0)[j],
            decreases n - i,
        {
            let e = v[i];
            let matched: Option<u8> = match e {
                Element::IdenticalWhite(k) => if k % 12 == 2 {
                    Some(k)
                } else {
                    None
                },
                Element::KeyCDE(k) => if k % 12 == 2 {
                    Some(k)
                } else {
                    None
                },
                _ => None,
            };
            proof {
                assert(matched == d_match(v@[i as int]));
            }
            let out = if i >= 3 && i + 1 < n {
                match matched {
                    Some(k) => {
                        if enlarge0 != ((cnt + 1) % 2 == 1) {
                            Element::KeyD(k)
                        } else {
                            e
                        }
                    },
                    None => e,
                }
            } else {
                e
            };
            r.push(out);
            if i >= 3 && i + 1 < n && matched.is_some() {
                cnt = cnt + 1;
            }
            i = i + 1;
            proof {
                if i > 3 {
                    assert(d_matches_before(v@, i as int) == d_matches_before(v@, i - 1) + if i - 1
                        < v@.len() - 1 && d_match(v@[i - 1]) is Some {
                        1int
                    } else {
                        0int
                    });
                }
            }
        }
        proof {
            assert(r@ =~= alt_d_elements(v@, enlarge0));
        }
        r
    }
}

/// Outcome of one executable round of the heuristic priority list.
enum HeuristicOutcome {
    Fired,
    Stuck,
    Broken,
}

impl Base {
    /// Applies the first matching heuristic, exactly as [`step`] describes.
    #[verifier::rlimit(100)]
    fn try_heuristics(&mut self, d: u16) -> (r: HeuristicOutcome)
        requires
            old(self).wf(),
            d as int == delta_of(old(self)@),
        ensures
            final(self).wf(),
            match r {
                HeuristicOutcome::Fired => step(old(self)@) == StepRes::Fired(final(self)@),
                HeuristicOutcome::Stuck => step(old(self)@) == StepRes::Stuck
                    && *final(self) == *old(self),
                HeuristicOutcome::Broken => step(old(self)@) is Broken,
            },
    {
        let n = self.nr_of_white_keys;

        // The remainder matches the number of gaps: widen every gap.
        if d == n + 1 {
            if self.identical_gap >= 65535 {
                return HeuristicOutcome::Broken;
            }
            self.identical_gap = self.identical_gap + 1;
            return HeuristicOutcome::Fired;
        }
        // The remainder matches the number of keys: widen every key.
        if d == n {
            if self.identical_key >= 65535 {
                return HeuristicOutcome::Broken;
            }
            self.identical_key = self.identical_key + 1;
            return HeuristicOutcome::Fired;
        }
        // A gap bump leaves a remainder close to a multiple of one of the
        // octave group counts: widen every gap.
        if d >= n + 1 {
            if self.nr_of_cde == 0 {
                return HeuristicOutcome::Broken;
            }
            let rem = d - n - 1;
            if rem % self.nr_of_cde <= 4 {
                if self.identical_gap >= 65535 {
                    return HeuristicOutcome::Broken;
                }
                self.identical_gap = self.identical_gap + 1;
                return HeuristicOutcome::Fired;
            }
            if self.nr_of_fgab == 0 {
                return HeuristicOutcome::Broken;
            }
            if rem % self.nr_of_fgab <= 4 {
                if self.identical_gap >= 65535 {
                    return HeuristicOutcome::Broken;
                }
                self.identical_gap = self.identical_gap + 1;
                return HeuristicOutcome::Fired;
            }
        }
        // The same, for a key bump.
        if d >= n {
            if self.nr_of_cde == 0 {
                return HeuristicOutcome::Broken;
            }
            let rem = d - n;
            if rem % self.nr_of_cde <= 4 {
                if self.identical_key >= 65535 {
                    return HeuristicOutcome::Broken;
                }
                self.identical_key = self.identical_key + 1;
                return HeuristicOutcome::Fired;
            }
            if self.nr_of_fgab == 0 {
                return HeuristicOutcome::Broken;
            }
            if rem % self.nr_of_fgab <= 4 {
                if self.identical_key >= 65535 {
                    return HeuristicOutcome::Broken;
                }
                self.identical_key = self.identical_key + 1;
                return HeuristicOutcome::Fired;
            }
        }
        self.try_enlargements(d)
    }

    /// Applies the first matching category enlargement, exactly as
    /// [`step_enlarge`] describes.
    #[verifier::rlimit(100)]
    fn try_enlargements(&mut self, d: u16) -> (r: HeuristicOutcome)
        requires
            old(self).wf(),
            d as int == delta_of(old(self)@),
        ensures
            final(self).wf(),
            match r {
                HeuristicOutcome::Fired => step_enlarge(old(self)@) == StepRes::Fired(
                    final(self)@,
                ),
                HeuristicOutcome::Stuck => step_enlarge(old(self)@) == StepRes::Stuck
                    && *final(self) == *old(self),
                HeuristicOutcome::Broken => step_enlarge(old(self)@) is Broken,
            },
    {
        // Widen every F, G, A and B key by one pixel.
        if d as u32 >= self.nr_of_f as u32 + self.nr_of_g as u32 + self.nr_of_a as u32
            + self.nr_of_b as u32 && !self.fgab_keys_enlarged {
            if self.identical_key >= 65535 {
                return HeuristicOutcome::Broken;
            }
            self.width_fgab = self.identical_key + 1;
            let mapped = Self::map_fgab(&self.elements);
            self.elements = mapped;
            self.fgab_keys_enlarged = true;
            return HeuristicOutcome::Fired;
        }
        // Widen every C, D and E key by one pixel.
        if d as u32 >= self.nr_of_c as u32 + self.nr_of_d as u32 + self.nr_of_e as u32
            && !self.cde_keys_enlarged {
            if self.identical_key >= 65535 {
                return HeuristicOutcome::Broken;
            }
            self.width_cde = self.identical_key + 1;
            let mapped = Self::map_cde(&self.elements);
            self.elements = mapped;
            self.cde_keys_enlarged = true;
            return HeuristicOutcome::Fired;
        }
        // Widen every B-to-C gap by one pixel.
        if d >= self.nr_of_bc_gaps && !self.bc_gaps_enlarged {
            if self.identical_gap >= 65535 {
                return HeuristicOutcome::Broken;
            }
            self.gap_bc = self.identical_gap + 1;
            let mapped = Self::map_bc_gaps(&self.elements);
            self.elements = mapped;
            self.bc_gaps_enlarged = true;
            return HeuristicOutcome::Fired;
        }
        // Widen every E-to-F gap by one pixel.
        if d >= self.nr_of_ef_gaps && !self.ef_gaps_enlarged {
            if self.identical_gap >= 65535 {
                return HeuristicOutcome::Broken;
            }
            self.gap_ef = self.identical_gap + 1;
            let mapped = Self::map_ef_gaps(&self.elements);
            self.elements = mapped;
            self.ef_gaps_enlarged = true;
            return HeuristicOutcome::Fired;
        }
        // Widen every D key by one pixel.
        if d >= self.nr_of_d && !self.d_key_enlarged && !self.alternating_d_key_enlarged {
            let base = if self.cde_keys_enlarged {
                self.width_cde
            } else {
                self.identical_key
            };
            if base >= 65535 {
                return HeuristicOutcome::Broken;
            }
            self.width_d = base + 1;
            let mapped = Self::map_d_keys(&self.elements);
            self.elements = mapped;
            self.d_key_enlarged = true;
            return HeuristicOutcome::Fired;
        }
        self.try_edges(d)
    }

    /// Applies the first matching edge heuristic, exactly as [`step_edge`]
    /// describes.
    #[verifier::rlimit(100)]
    fn try_edges(&mut self, d: u16) -> (r: HeuristicOutcome)
        requires
            old(self).wf(),
            d as int == delta_of(old(self)@),
        ensures
            final(self).wf(),
            match r {
                HeuristicOutcome::Fired => step_edge(old(self)@) == StepRes::Fired(final(self)@),
                HeuristicOutcome::Stuck => step_edge(old(self)@) == StepRes::Stuck && *final(self)
                    == *old(self),
                HeuristicOutcome::Broken => step_edge(old(self)@) is Broken,
            },
    {
        // A small remainder: widen the outermost gaps.
        if d <= 4 && !self.outer_gaps_enlarged {
            if self.identical_gap >= 65535 {
                return HeuristicOutcome::Broken;
            }
            let len = self.elements.len();
            self.elements.set(0, Element::OuterGap);
            if d % 2 == 0 {
                self.elements.set(len - 1, Element::OuterGap);
            }
            self.outer_gaps = self.identical_gap + 1;
            self.outer_gaps_enlarged = true;
            return HeuristicOutcome::Fired;
        }
        // Exactly two pixels left: widen the leftmost and rightmost key.
        if d == 2 && !self.end_keys_enlarged {
            let e1 = self.elements[1];
            match e1 {
                Element::IdenticalWhite(k) => {
                    if self.identical_key >= 65535 {
                        return HeuristicOutcome::Broken;
                    }
                    self.outer_left_key = self.identical_key + 1;
                    self.elements.set(1, Element::EnlargedOuterLeftKey(k));
                },
                Element::KeyCDE(k) => {
                    if self.width_cde >= 65535 {
                        return HeuristicOutcome::Broken;
                    }
                    self.outer_left_key = self.width_cde + 1;
                    self.elements.set(1, Element::EnlargedOuterLeftKey(k));
                },
                Element::KeyFGAB(k) => {
                    if self.width_fgab >= 65535 {
                        return HeuristicOutcome::Broken;
                    }
                    self.outer_left_key = self.width_fgab + 1;
                    self.elements.set(1, Element::EnlargedOuterLeftKey(k));
                },
                Element::EnlargedOuterLeftKey(k) => {
                    if self.outer_left_key >= 65535 {
                        return HeuristicOutcome::Broken;
                    }
                    self.outer_left_key = self.outer_left_key + 1;
                    self.elements.set(1, Element::EnlargedOuterLeftKey(k));
                },
                _ => {
                    return HeuristicOutcome::Broken;
                },
            }
            let ghost mid = self@;
            proof {
                assert(enlarge_left(old(self)@) == Some(mid));
            }
            let j = self.elements.len() - 2;
            let e2 = self.elements[j];
            match e2 {
                Element::IdenticalWhite(k) => {
                    if self.identical_key >= 65535 {
                        return HeuristicOutcome::Broken;
                    }
                    self.outer_right_key = self.identical_key + 1;
                    self.elements.set(j, Element::EnlargedOuterRightKey(k));
                },
                Element::KeyCDE(k) => {
                    if self.width_cde >= 65535 {
                        return HeuristicOutcome::Broken;
                    }
                    self.outer_right_key = self.width_cde + 1;
                    self.elements.set(j, Element::EnlargedOuterRightKey(k));
                },
                Element::KeyFGAB(k) => {
                    if self.width_fgab >= 65535 {
                        return HeuristicOutcome::Broken;
                    }
                    self.outer_right_key = self.width_fgab + 1;
                    self.elements.set(j, Element::EnlargedOuterRightKey(k));
                },
                Element::EnlargedOuterRightKey(k) => {
                    if self.outer_right_key >= 65535 {
                        return HeuristicOutcome::Broken;
                    }
                    self.outer_right_key = self.outer_right_key + 1;
                    self.elements.set(j, Element::EnlargedOuterRightKey(k));
                },
                _ => {
                    return HeuristicOutcome::Broken;
                },
            }
            proof {
                assert(enlarge_right(mid) == Some(self@));
            }
            self.end_keys_enlarged = true;
            return HeuristicOutcome::Fired;
        }
        // Widen every other D key.
        if d >= self.nr_of_d / 2 && !self.d_key_enlarged && !self.alternating_d_key_enlarged {
            let base = if self.cde_keys_enlarged {
                self.width_cde
            } else {
                self.identical_key
            };
            if base >= 65535 {
                return HeuristicOutcome::Broken;
            }
            let enlarge0 = d == self.nr_of_d / 2;
            self.width_d = base + 1;
            let mapped = Self::map_alt_d_keys(&self.elements, enlarge0);
            self.elements = mapped;
            self.alternating_d_key_enlarged = true;
            return HeuristicOutcome::Fired;
        }
        HeuristicOutcome::Stuck
    }
}

impl Base {
    /// Drives the heuristics until the element widths sum exactly to the
    /// target width, or reports that the search stalled.
    fn find_solution(&mut self) -> (r: Result<(), SolverInvariantError>)
        requires
            old(self).wf(),
        ensures
            match r {
                Ok(()) => solve(old(self)@, 0, base_fuel(old(self)@)) == Some(final(self)@)
                    && final(self).wf(),
                Err(_) => solve(old(self)@, 0, base_fuel(old(self)@)) is None,
            },
    {
        let ghost m0 = self@;
        let mut last_delta: u16 = 0;
        let mut fuel: u32 = 2 * (self.width as u32) + 4;
        proof {
            assert(fuel as nat == base_fuel(m0));
        }
        loop
            invariant
                self.wf(),
                solve(m0, 0, base_fuel(m0)) == solve(self@, last_delta as int, fuel as nat),
                self@.width == m0.width,
            decreases fuel,
        {
            let w = self.current_width();
            if w > self.width as u64 {
                return Err(SolverInvariantError);
            }
            let d: u16 = self.width - w as u16;
            proof {
                assert(d as int == delta_of(self@));
            }
            if d == 0 {
                return Ok(());
            }
            if d == last_delta {
                return Err(SolverInvariantError);
            }
            if fuel == 0 {
                return Err(SolverInvariantError);
            }
            fuel = fuel - 1;
            let ghost before = self@;
            match self.try_heuristics(d) {
                HeuristicOutcome::Fired => {
                    proof {
                        assert(solve(before, last_delta as int, (fuel + 1) as nat) == solve(
                            self@,
                            d as int,
                            fuel as nat,
                        ));
                    }
                    last_delta = d;
                },
                HeuristicOutcome::Stuck => {
                    return Err(SolverInvariantError);
                },
                HeuristicOutcome::Broken => {
                    return Err(SolverInvariantError);
                },
            }
        }
    }

    /// Seeds the solver for a validated configuration and drives it to an
    /// exact distribution of the target width.
    pub fn calculate(kb: &KeyboardBuilder) -> (r: Result<Base, SolverInvariantError>)
        requires
            kb.wf(),
        ensures
            match r {
                Ok(b) => spec_base(*kb) == Some(b@) && b.wf() && total_width(b@) == kb.width,
                Err(_) => spec_base(*kb) is None,
            },
    {
        let from = kb.left_white_key;
        let to = kb.right_white_key;
        let w = kb.width;
        let ghost fromi = from as int;
        let ghost endi = to as int + 1;

        let mut n: u16 = 0;
        let mut nr_of_c: u16 = 0;
        let mut nr_of_d: u16 = 0;
        let mut nr_of_e: u16 = 0;
        let mut nr_of_cde: u16 = 0;
        let mut nr_of_f: u16 = 0;
        let mut nr_of_g: u16 = 0;
        let mut nr_of_a: u16 = 0;
        let mut nr_of_b: u16 = 0;
        let mut nr_of_fgab: u16 = 0;
        let mut nr_of_bc_gaps: u16 = 0;
        let mut nr_of_ef_gaps: u16 = 0;
        let mut elements: Vec<Element> = Vec::new();
        elements.push(Element::IdenticalGap);

        let mut key: u8 = from;
        while key <= to
            invariant
                kb.wf(),
                from == kb.left_white_key,
                to == kb.right_white_key,
                from <= key,
                key as int <= to as int + 1,
                n == count_white(fromi, key as int),
                n as int <= key as int - fromi,
                nr_of_c == count_class(fromi, key as int, 0),
                nr_of_d == count_class(fromi, key as int, 2),
                nr_of_e == count_class(fromi, key as int, 4),
                nr_of_cde == count_class(fromi + 4, key as int, 4),
                nr_of_f == count_class(fromi, key as int, 5),
                nr_of_g == count_class(fromi, key as int, 7),
                nr_of_a == count_class(fromi, key as int, 9),
                nr_of_b == count_class(fromi, key as int, 11),
                nr_of_fgab == count_class(fromi + 6, key as int, 11),
                nr_of_bc_gaps == count_class(fromi + 1, key as int, 0),
                nr_of_ef_gaps == count_class(fromi + 1, key as int, 5),
                nr_of_c as int <= key as int - fromi,
                nr_of_d as int <= key as int - fromi,
                nr_of_e as int <= key as int - fromi,
                nr_of_cde as int <= key as int - fromi,
                nr_of_f as int <= key as int - fromi,
                nr_of_g as int <= key as int - fromi,
                nr_of_a as int <= key as int - fromi,
                nr_of_b as int <= key as int - fromi,
                nr_of_fgab as int <= key as int - fromi,
                nr_of_bc_gaps as int <= key as int - fromi,
                nr_of_ef_gaps as int <= key as int - fromi,
                elements@ == seed_elements(fromi, key as int),
                elements@.len() == 2 * n + 1,
            decreases to as int + 1 - key as int,
        {
            let c = key % 12;
            if c == 0 || c == 2 || c == 4 || c == 5 || c == 7 || c == 9 || c == 11 {
                n = n + 1;
                elements.push(Element::IdenticalWhite(key));
                elements.push(Element::IdenticalGap);
            }
            if c == 0 {
                nr_of_c = nr_of_c + 1;
                if key > from {
                    nr_of_bc_gaps = nr_of_bc_gaps + 1;
                }
            } else if c == 2 {
                nr_of_d = nr_of_d + 1;
            } else if c == 4 {
                nr_of_e = nr_of_e + 1;
                if key as u16 >= from as u16 + 4 {
                    nr_of_cde = nr_of_cde + 1;
                }
            } else if c == 5 {
                nr_of_f = nr_of_f + 1;
                if key > from {
                    nr_of_ef_gaps = nr_of_ef_gaps + 1;
                }
            } else if c == 7 {
                nr_of_g = nr_of_g + 1;
            } else if c == 9 {
                nr_of_a = nr_of_a + 1;
            } else if c == 11 {
                nr_of_b = nr_of_b + 1;
                if key as u16 >= from as u16 + 6 {
                    nr_of_fgab = nr_of_fgab + 1;
                }
            }
            proof {
                assert(elements@ =~= seed_elements(fromi, key as int + 1));
            }
            key = key + 1;
        }

        proof {
            assert(count_white(fromi, fromi) == 0);
            assert(count_white(fromi, fromi + 1) == 1);
            lemma_count_white_monotonic(fromi, fromi + 1, endi);
            assert(n >= 1);
        }
        // Scale the physical measures to the requested pixel width and take
        // the floors as the uniform seed widths.
        let key_gap_10um: u64 = (kb.white_key_height_10um - kb.black_key_height_10um
            - kb.white_key_wide_height_10um) as u64;
        let wide_plus_gap: u64 = kb.white_key_wide_width_10um as u64 + key_gap_10um;
        proof {
            assert(wide_plus_gap == 2342);
        }
        proof {
            assert(2342 <= wide_plus_gap * (n as u64) <= 2342 * 128) by (nonlinear_arith)
                requires
                    wide_plus_gap == 2342,
                    1 <= n as u64 <= 128,
            ;
        }
        let keyboard_width_10um: u64 = wide_plus_gap * (n as u64) + key_gap_10um;
        proof {
            assert(key_gap_10um == 127);
            assert(keyboard_width_10um == 2342 * (n as int) + 127);
            assert(keyboard_width_10um >= 2469);
        }
        let gap_min: u64 = key_gap_10um * (w as u64) / keyboard_width_10um;
        let kw_min0: u64 = (kb.white_key_wide_width_10um as u64) * (w as u64)
            / keyboard_width_10um;
        let black_min: u64 = (kb.black_key_width_10um as u64) * (w as u64) / keyboard_width_10um;
        proof {
            let ki = keyboard_width_10um as int;
            vstd::arithmetic::div_mod::lemma_div_pos_is_pos(127 * w as int, ki);
            vstd::arithmetic::div_mod::lemma_div_nonincreasing(127 * w as int, ki);
            vstd::arithmetic::div_mod::lemma_div_nonincreasing(2215 * w as int, ki);
            assert(gap_min <= 127 * 65408);
            assert(kw_min0 <= 2215 * 65408);
            vstd::arithmetic::div_mod::lemma_div_is_ordered_by_denominator(
                1100 * w as int,
                2469,
                ki,
            );
            vstd::arithmetic::div_mod::lemma_div_is_ordered(
                1100 * w as int,
                1100int * 65408,
                2469,
            );
            assert(black_min <= 65535);
            vstd::arithmetic::mul::lemma_mul_upper_bound(
                n as int,
                128,
                kw_min0 as int + 1,
                2215int * 65408 + 1,
            );
            vstd::arithmetic::mul::lemma_mul_upper_bound(
                n as int + 1,
                129,
                gap_min as int,
                127int * 65408,
            );
        }
        let kw_min: u64 = if (n as u64) * (kw_min0 + 1) + (n as u64 + 1) * gap_min <= w as u64 {
            kw_min0 + 1
        } else {
            kw_min0
        };
        proof {
            vstd::arithmetic::mul::lemma_mul_upper_bound(
                n as int,
                128,
                kw_min as int + 1,
                2215int * 65408 + 2,
            );
            vstd::arithmetic::mul::lemma_mul_upper_bound(
                n as int,
                128,
                kw_min as int,
                2215int * 65408 + 1,
            );
        }
        let min_width: u64 = (n as u64) * kw_min + (n as u64 + 1) * gap_min;
        let max_width: u64 = (n as u64) * (kw_min + 1) + (n as u64 + 1) * gap_min;
        if !(min_width <= w as u64 && w as u64 <= max_width) {
            proof {
                assert(spec_seed(*kb) is None);
            }
            return Err(SolverInvariantError);
        }
        // The checked bracket bounds every stored width by the target width.
        proof {
            assert(gap_min <= w as u64) by (nonlinear_arith)
                requires
                    (n as u64 + 1) * gap_min <= min_width,
                    min_width <= w as u64,
                    n as u64 >= 1,
                    gap_min >= 0,
            ;
            assert(kw_min <= w as u64) by (nonlinear_arith)
                requires
                    (n as u64) * kw_min <= min_width,
                    min_width <= w as u64,
                    n as u64 >= 1,
                    kw_min >= 0,
            ;
        }
        let mut base = Base {
            width: w,
            nr_of_white_keys: n,
            elements: elements,
            key_gap_min: gap_min as u16,
            kw_width_min: kw_min as u16,
            black_key_min: black_min as u16,
            identical_key: kw_min as u16,
            identical_gap: gap_min as u16,
            gap_bc: 0,
            gap_ef: 0,
            outer_gaps: 0,
            outer_left_key: 0,
            outer_right_key: 0,
            width_d: 0,
            width_cde: 0,
            width_fgab: 0,
            nr_of_c: nr_of_c,
            nr_of_d: nr_of_d,
            nr_of_e: nr_of_e,
            nr_of_cde: nr_of_cde,
            nr_of_f: nr_of_f,
            nr_of_g: nr_of_g,
            nr_of_a: nr_of_a,
            nr_of_b: nr_of_b,
            nr_of_fgab: nr_of_fgab,
            nr_of_bc_gaps: nr_of_bc_gaps,
            nr_of_ef_gaps: nr_of_ef_gaps,
            outer_gaps_enlarged: false,
            bc_gaps_enlarged: false,
            ef_gaps_enlarged: false,
            d_key_enlarged: false,
            alternating_d_key_enlarged: false,
            end_keys_enlarged: false,
            cde_keys_enlarged: false,
            fgab_keys_enlarged: false,
        };
        proof {
            assert(spec_seed(*kb) == Some(base@));
        }
        match base.find_solution() {
            Ok(()) => {
                proof {
                    lemma_units_fill_width(*kb, base@);
                }
                Ok(base)
            },
            Err(e) => Err(e),
        }
    }
}

/// White keys only accumulate as the range grows.
pub proof fn lemma_count_white_monotonic(from: int, mid: int, end: int)
    requires
        from <= mid <= end,
    ensures
        count_white(from, mid) <= count_white(from, end),
    decreases end - mid,
{
    if mid < end {
        lemma_count_white_monotonic(from, mid, end - 1);
    }
}

/// Whether an element stands for a white key (rather than a gap).
pub open spec fn is_key_element(e: Element) -> bool {
    match e {
        Element::IdenticalWhite(_) => true,
        Element::KeyD(_) => true,
        Element::KeyCDE(_) => true,
        Element::KeyFGAB(_) => true,
        Element::EnlargedOuterLeftKey(_) => true,
        Element::EnlargedOuterRightKey(_) => true,
        Element::IdenticalGap => false,
        Element::GapBC => false,
        Element::GapEF => false,
        Element::OuterGap => false,
    }
}

/// The distribution entry a solver state assigns to one element.
pub open spec fn result_el(m: BaseModel, e: Element) -> ResultElement {
    match e {
        Element::IdenticalWhite(k) => ResultElement::Key(m.identical_key as u16, k),
        Element::IdenticalGap => ResultElement::Gap(m.identical_gap as u16),
        Element::GapBC => ResultElement::Gap(m.gap_bc as u16),
        Element::GapEF => ResultElement::Gap(m.gap_ef as u16),
        Element::KeyD(k) => ResultElement::Key(m.width_d as u16, k),
        Element::KeyCDE(k) => ResultElement::Key(m.width_cde as u16, k),
        Element::KeyFGAB(k) => ResultElement::Key(m.width_fgab as u16, k),
        Element::OuterGap => ResultElement::Gap(m.outer_gaps as u16),
        Element::EnlargedOuterLeftKey(k) => ResultElement::Key(m.outer_left_key as u16, k),
        Element::EnlargedOuterRightKey(k) => ResultElement::Key(m.outer_right_key as u16, k),
    }
}

/// The full distribution a solver state stands for.
pub open spec fn result_seq(m: BaseModel) -> Seq<ResultElement> {
    Seq::new(m.elements.len(), |i: int| result_el(m, m.elements[i]))
}

/// The width of one distribution entry.
pub open spec fn unit_width(u: ResultElement) -> int {
    match u {
        ResultElement::Key(w, _) => w as int,
        ResultElement::Gap(w) => w as int,
    }
}

/// The summed width of a distribution.
pub open spec fn sum_units(s: Seq<ResultElement>) -> int
    decreases s.len(),
{
    if s.len() == 0 {
        0
    } else {
        sum_units(s.drop_last()) + unit_width(s.last())
    }
}

/// All ten per-category widths of the state fit 16 bits.
pub open spec fn widths_fit(m: BaseModel) -> bool {
    &&& 0 <= m.identical_key <= 65535
    &&& 0 <= m.identical_gap <= 65535
    &&& 0 <= m.gap_bc <= 65535
    &&& 0 <= m.gap_ef <= 65535
    &&& 0 <= m.outer_gaps <= 65535
    &&& 0 <= m.outer_left_key <= 65535
    &&& 0 <= m.outer_right_key <= 65535
    &&& 0 <= m.width_d <= 65535
    &&& 0 <= m.width_cde <= 65535
    &&& 0 <= m.width_fgab <= 65535
}

/// Where the widths fit 16 bits, the distribution's summed width equals the
/// summed width of the elements it was read from.
pub proof fn lemma_sum_units_eq(m: BaseModel, s: Seq<Element>)
    requires
        widths_fit(m),
    ensures
        sum_units(Seq::new(s.len(), |i: int| result_el(m, s[i]))) == sum_el(m, s),
    decreases s.len(),
{
    let mapped = Seq::new(s.len(), |i: int| result_el(m, s[i]));
    if s.len() > 0 {
        lemma_sum_units_eq(m, s.drop_last());
        assert(mapped.drop_last() =~= Seq::new(
            s.drop_last().len(),
            |i: int| result_el(m, s.drop_last()[i]),
        ));
        assert(unit_width(mapped.last()) == el_width(m, s.last()));
    }
}

impl Base {
    /// Reads the solved distribution off: the perfection flag and the
    /// ordered gap/key sequence, whose widths sum to the summed width of the
    /// internal elements.
    pub fn result(&self) -> (r: (bool, Vec<ResultElement>))
        ensures
            r.1@ == result_seq(self@),
            r.0 == spec_perfect(self@),
            sum_units(r.1@) == total_width(self@),
    {
        let perfect = !self.fgab_keys_enlarged && !self.cde_keys_enlarged
            && !self.bc_gaps_enlarged && !self.ef_gaps_enlarged && !self.d_key_enlarged
            && !self.outer_gaps_enlarged && !self.end_keys_enlarged
            && !self.alternating_d_key_enlarged;
        let n = self.elements.len();
        let mut out: Vec<ResultElement> = Vec::new();
        let mut i: usize = 0;
        while i < n
            invariant
                i <= n,
                out@.len() == i,
                forall|j: int| 0 <= j < i ==> out@[j] == result_seq(self@)[j],
            decreases n - i,
        {
            let u = match self.elements[i] {
                Element::IdenticalWhite(k) => ResultElement::Key(self.identical_key, k),
                Element::IdenticalGap => ResultElement::Gap(self.identical_gap),
                Element::GapBC => ResultElement::Gap(self.gap_bc),
                Element::GapEF => ResultElement::Gap(self.gap_ef),
                Element::KeyD(k) => ResultElement::Key(self.width_d, k),
                Element::KeyCDE(k) => ResultElement::Key(self.width_cde, k),
                Element::KeyFGAB(k) => ResultElement::Key(self.width_fgab, k),
                Element::OuterGap => ResultElement::Gap(self.outer_gaps),
                Element::EnlargedOuterLeftKey(k) => ResultElement::Key(self.outer_left_key, k),
                Element::EnlargedOuterRightKey(k) => ResultElement::Key(self.outer_right_key, k),
            };
            out.push(u);
            i = i + 1;
        }
        proof {
            assert(out@ =~= result_seq(self@));
            lemma_sum_units_eq(self@, self@.elements);
            assert(sum_units(out@) == total_width(self@));
        }
        (perfect, out)
    }
}

/// A fired edge heuristic changes no count, nor the target width.
#[verifier::rlimit(50)]
proof fn lemma_step_edge_preserves(m: BaseModel)
    ensures
        step_edge(m) matches StepRes::Fired(m2) ==> m2.width == m.width
            && m2.nr_of_white_keys == m.nr_of_white_keys,
{
    let d = delta_of(m);
    if d == 2 && !m.end_keys_enlarged && !(d <= 4 && !m.outer_gaps_enlarged) {
        match enlarge_left(m) {
            Some(m1) => {
                assert(m1.width == m.width && m1.nr_of_white_keys == m.nr_of_white_keys);
                match enlarge_right(m1) {
                    Some(m2) => {
                        assert(m2.width == m.width && m2.nr_of_white_keys
                            == m.nr_of_white_keys);
                    },
                    None => {},
                }
            },
            None => {},
        }
    }
}

/// A fired category enlargement changes no count, nor the target width.
proof fn lemma_step_enlarge_preserves(m: BaseModel)
    ensures
        step_enlarge(m) matches StepRes::Fired(m2) ==> m2.width == m.width
            && m2.nr_of_white_keys == m.nr_of_white_keys,
{
    lemma_step_edge_preserves(m);
}

/// A fired heuristic changes no count, nor the target width.
proof fn lemma_step_preserves(m: BaseModel)
    ensures
        step(m) matches StepRes::Fired(m2) ==> m2.width == m.width && m2.nr_of_white_keys
            == m.nr_of_white_keys,
{
    lemma_step_enlarge_preserves(m);
}

/// A successful search ends with the summed width equal to the target, and
/// neither the target width nor the number of white keys has changed.
pub proof fn lemma_solve_exact(m: BaseModel, last_delta: int, fuel: nat)
    ensures
        solve(m, last_delta, fuel) matches Some(r) ==> delta_of(r) == 0 && r.width == m.width
            && r.nr_of_white_keys == m.nr_of_white_keys,
    decreases fuel,
{
    let d = delta_of(m);
    if total_width(m) > m.width || d == 0 || d == last_delta || fuel == 0 {
    } else {
        match step(m) {
            StepRes::Fired(m2) => {
                lemma_step_preserves(m);
                lemma_solve_exact(m2, d, (fuel - 1) as nat);
            },
            _ => {},
        }
    }
}

/// The solved distribution's widths sum exactly to the requested width.
pub proof fn lemma_units_fill_width(kb: KeyboardBuilder, m: BaseModel)
    requires
        spec_base(kb) == Some(m),
    ensures
        total_width(m) == kb.width,
        m.width == kb.width,
{
    match spec_seed(kb) {
        Some(m0) => {
            lemma_solve_exact(m0, 0, base_fuel(m0));
        },
        None => {},
    }
}

/// An edge heuristic never fires without marking the state imperfect.
#[verifier::rlimit(50)]
proof fn lemma_step_edge_perfect(m: BaseModel)
    ensures
        step_edge(m) matches StepRes::Fired(m2) ==> !spec_perfect(m2),
{
}

/// A category enlargement never fires without marking the state imperfect.
proof fn lemma_step_enlarge_perfect(m: BaseModel)
    ensures
        step_enlarge(m) matches StepRes::Fired(m2) ==> !spec_perfect(m2),
{
    lemma_step_edge_perfect(m);
}

/// A heuristic that leaves the state perfect was a uniform bump, which
/// leaves the elements untouched.
proof fn lemma_step_perfect(m: BaseModel)
    ensures
        step(m) matches StepRes::Fired(m2) ==> (spec_perfect(m2) ==> spec_perfect(m)
            && m2.elements == m.elements),
{
    lemma_step_enlarge_perfect(m);
}

/// A search that ends perfect never touched the elements.
proof fn lemma_solve_perfect(m: BaseModel, last_delta: int, fuel: nat)
    ensures
        solve(m, last_delta, fuel) matches Some(r) ==> (spec_perfect(r) ==> spec_perfect(m)
            && r.elements == m.elements),
    decreases fuel,
{
    let d = delta_of(m);
    if total_width(m) > m.width || d == 0 || d == last_delta || fuel == 0 {
    } else {
        match step(m) {
            StepRes::Fired(m2) => {
                lemma_step_perfect(m);
                lemma_solve_perfect(m2, d, (fuel - 1) as nat);
            },
            _ => {},
        }
    }
}

/// Every seeded element is a uniform white key or a uniform gap.
proof fn lemma_seed_identical(from: int, end: int)
    ensures
        forall|i: int|
            0 <= i < seed_elements(from, end).len() ==> (seed_elements(from, end)[i] matches
            Element::IdenticalWhite(_) || seed_elements(from, end)[i] is IdenticalGap),
    decreases end - from,
{
    if end > from {
        lemma_seed_identical(from, end - 1);
        assert(forall|i: int|
            0 <= i < seed_elements(from, end - 1).len() ==> seed_elements(from, end)[i]
                == seed_elements(from, end - 1)[i]);
    }
}

/// A perfect distribution is uniform: every key unit has the shared key
/// width and every gap unit has the shared gap width.
pub proof fn lemma_perfect_is_uniform(kb: KeyboardBuilder, m: BaseModel)
    requires
        spec_base(kb) == Some(m),
        spec_perfect(m),
    ensures
        forall|i: int|
            0 <= i < m.elements.len() && is_key_element(#[trigger] m.elements[i]) ==> el_width(
                m,
                m.elements[i],
            ) == m.identical_key,
        forall|i: int|
            0 <= i < m.elements.len() && !is_key_element(#[trigger] m.elements[i]) ==> el_width(
                m,
                m.elements[i],
            ) == m.identical_gap,
{
    match spec_seed(kb) {
        Some(m0) => {
            lemma_solve_perfect(m0, 0, base_fuel(m0));
            lemma_seed_identical(kb.left_white_key as int, kb.right_white_key + 1);
        },
        None => {},
    }
}

/// Extending a distribution prefix by one unit adds that unit's width.
pub proof fn lemma_sum_units_step(s: Seq<ResultElement>, i: int)
    requires
        0 <= i < s.len(),
    ensures
        sum_units(s.take(i + 1)) == sum_units(s.take(i)) + unit_width(s[i]),
{
    assert(s.take(i + 1).drop_last() =~= s.take(i));
    assert(s.take(i + 1).last() == s[i]);
}

/// A prefix of a distribution never sums to more than the whole.
pub proof fn lemma_sum_units_take_le(s: Seq<ResultElement>, i: int)
    requires
        0 <= i <= s.len(),
    ensures
        sum_units(s.take(i)) <= sum_units(s),
    decreases s.len() - i,
{
    if i == s.len() {
        assert(s.take(i) =~= s);
    } else {
        lemma_sum_units_step(s, i);
        lemma_sum_units_take_le(s, i + 1);
    }
}

/// Prefix sums of a distribution grow monotonically.
pub proof fn lemma_sum_units_monotonic(s: Seq<ResultElement>, a: int, b: int)
    requires
        0 <= a <= b <= s.len(),
    ensures
        sum_units(s.take(a)) <= sum_units(s.take(b)),
    decreases b - a,
{
    if a < b {
        lemma_sum_units_step(s, a);
        lemma_sum_units_monotonic(s, a + 1, b);
    }
}

/// Whether pixel column `p` lies in the span of unit `i` of a distribution.
pub open spec fn unit_contains(s: Seq<ResultElement>, i: int, p: int) -> bool {
    sum_units(s.take(i)) <= p < sum_units(s.take(i + 1))
}

/// Pixel columns below the summed width each fall in at least one unit.
proof fn lemma_units_cover(s: Seq<ResultElement>, p: int)
    requires
        0 <= p < sum_units(s),
    ensures
        exists|i: int| 0 <= i < s.len() && unit_contains(s, i, p),
    decreases s.len(),
{
    assert(s.len() > 0);
    let shorter = s.drop_last();
    assert(s.take(s.len() - 1) =~= shorter);
    assert(s.take(s.len() as int) =~= s);
    if p < sum_units(shorter) {
        lemma_units_cover(shorter, p);
        let i = choose|i: int| 0 <= i < shorter.len() && unit_contains(shorter, i, p);
        assert(shorter.take(i) =~= s.take(i));
        assert(shorter.take(i + 1) =~= s.take(i + 1));
        assert(unit_contains(s, i, p));
    } else {
        assert(unit_contains(s, s.len() - 1, p));
    }
}

/// The spans of the units of a solved distribution tile the pixel columns
/// `0 .. width`: every column lies in the span of exactly one unit.
pub proof fn lemma_units_tile_width(kb: KeyboardBuilder, m: BaseModel, p: int)
    requires
        kb.wf(),
        spec_base(kb) == Some(m),
        0 <= p < kb.width,
    ensures
        exists|i: int| 0 <= i < m.elements.len() && unit_contains(result_seq(m), i, p),
        forall|i: int, j: int|
            0 <= i < m.elements.len() && 0 <= j < m.elements.len() && unit_contains(
                result_seq(m),
                i,
                p,
            ) && unit_contains(result_seq(m), j, p) ==> i == j,
{
    let s = result_seq(m);
    lemma_units_fill_width(kb, m);
    lemma_sum_units_eq_fit(kb, m);
    lemma_units_cover(s, p);
    assert forall|i: int, j: int|
        0 <= i < s.len() && 0 <= j < s.len() && unit_contains(s, i, p) && unit_contains(
            s,
            j,
            p,
        ) implies i == j by {
        if i < j {
            lemma_sum_units_monotonic(s, i + 1, j);
        }
        if j < i {
            lemma_sum_units_monotonic(s, j + 1, i);
        }
    }
}

/// For a solved configuration, the distribution's widths fit 16 bits and
/// sum to the target width.
pub proof fn lemma_sum_units_eq_fit(kb: KeyboardBuilder, m: BaseModel)
    requires
        kb.wf(),
        spec_base(kb) == Some(m),
    ensures
        sum_units(result_seq(m)) == kb.width,
{
    lemma_units_fill_width(kb, m);
    lemma_seed_fit(kb);
    match spec_seed(kb) {
        Some(m0) => {
            lemma_solve_fit(m0, 0, base_fuel(m0));
            lemma_sum_units_eq(m, m.elements);
        },
        None => {},
    }
}

/// Seeding a validated configuration stores only widths that fit 16 bits.
proof fn lemma_seed_fit(kb: KeyboardBuilder)
    requires
        kb.wf(),
    ensures
        spec_seed(kb) matches Some(m0) ==> widths_fit(m0) && m0.identical_key <= kb.width
            && m0.identical_gap <= kb.width,
{
    match spec_seed(kb) {
        Some(m0) => {
            let from = kb.left_white_key as int;
            let end = kb.right_white_key + 1;
            let w = kb.width as int;
            let n = count_white(from, end);
            let key_gap_10um = 12627 - 8000 - 4500;
            let keyboard_width_10um = (2215 + key_gap_10um) * n + key_gap_10um;
            assert(count_white(from, from) == 0);
            assert(count_white(from, from + 1) == 1);
            lemma_count_white_monotonic(from, from + 1, end);
            assert(n >= 1);
            assert(keyboard_width_10um >= 127) by (nonlinear_arith)
                requires
                    n >= 1,
                    keyboard_width_10um == 2342 * n + 127,
            ;
            vstd::arithmetic::div_mod::lemma_div_pos_is_pos(
                key_gap_10um * w,
                keyboard_width_10um,
            );
            vstd::arithmetic::div_mod::lemma_div_pos_is_pos(2215 * w, keyboard_width_10um);
            assert(m0.identical_gap >= 0);
            assert(m0.identical_key >= 0);
            assert(n * m0.identical_key + (n + 1) * m0.identical_gap <= w);
            assert(m0.identical_key <= n * m0.identical_key) by (nonlinear_arith)
                requires
                    n >= 1,
                    m0.identical_key >= 0,
            ;
            assert(m0.identical_gap <= (n + 1) * m0.identical_gap) by (nonlinear_arith)
                requires
                    n >= 1,
                    m0.identical_gap >= 0,
            ;
            assert(n * m0.identical_key >= 0) by (nonlinear_arith)
                requires
                    n >= 1,
                    m0.identical_key >= 0,
            ;
            assert((n + 1) * m0.identical_gap >= 0) by (nonlinear_arith)
                requires
                    n >= 1,
                    m0.identical_gap >= 0,
            ;
        },
        None => {},
    }
}


/// A fired heuristic keeps every stored width within 16 bits.
#[verifier::rlimit(50)]
proof fn lemma_step_fit(m: BaseModel)
    requires
        widths_fit(m),
    ensures
        step(m) matches StepRes::Fired(m2) ==> widths_fit(m2),
{
    let d = delta_of(m);
    if d == 2 && !m.end_keys_enlarged {
        match enlarge_left(m) {
            Some(m1) => {
                assert(widths_fit(m1));
            },
            None => {},
        }
    }
}

/// A successful search keeps every stored width within 16 bits.
proof fn lemma_solve_fit(m: BaseModel, last_delta: int, fuel: nat)
    requires
        widths_fit(m),
    ensures
        solve(m, last_delta, fuel) matches Some(r) ==> widths_fit(r),
    decreases fuel,
{
    let d = delta_of(m);
    if total_width(m) > m.width || d == 0 || d == last_delta || fuel == 0 {
    } else {
        match step(m) {
            StepRes::Fired(m2) => {
                lemma_step_fit(m);
                lemma_solve_fit(m2, d, (fuel - 1) as nat);
            },
            _ => {},
        }
    }
}

/// A prefix sum of a distribution is never negative.
pub proof fn lemma_sum_units_nonneg(s: Seq<ResultElement>, i: int)
    requires
        0 <= i <= s.len(),
    ensures
        sum_units(s.take(i)) >= 0,
{
    assert(s.take(0) =~= Seq::<ResultElement>::empty());
    lemma_sum_units_monotonic(s, 0, i);
}

/// A width that the uniform seed widths fill exactly needs no heuristic at
/// all: the seed state is the solution, and it is perfect.
pub proof fn lemma_exact_seed_is_perfect(kb: KeyboardBuilder, m0: BaseModel)
    requires
        spec_seed(kb) == Some(m0),
        delta_of(m0) == 0,
    ensures
        spec_base(kb) == Some(m0),
        spec_perfect(m0),
{
}

/// The solved distribution of a validated configuration stores only widths
/// that fit 16 bits.
pub proof fn lemma_widths_fit_of_base(kb: KeyboardBuilder, m: BaseModel)
    requires
        kb.wf(),
        spec_base(kb) == Some(m),
    ensures
        widths_fit(m),
{
    lemma_seed_fit(kb);
    match spec_seed(kb) {
        Some(m0) => {
            lemma_solve_fit(m0, 0, base_fuel(m0));
        },
        None => {},
    }
}

/// Number of key elements in a sequence.
pub open spec fn count_key_elements(s: Seq<Element>) -> int
    decreases s.len(),
{
    if s.len() == 0 {
        0
    } else {
        count_key_elements(s.drop_last()) + if is_key_element(s.last()) {
            1int
        } else {
            0int
        }
    }
}

/// All elements of the sequence are uniform keys or uniform gaps.
pub open spec fn all_identical(s: Seq<Element>) -> bool {
    forall|i: int|
        0 <= i < s.len() ==> (s[i] matches Element::IdenticalWhite(_) || s[i] is IdenticalGap)
}

/// Widening the uniform key width by one pixel widens a uniform sequence by
/// one pixel per key element.
proof fn lemma_sum_bump_key(m: BaseModel, m2: BaseModel, s: Seq<Element>)
    requires
        all_identical(s),
        m2 == (BaseModel { identical_key: m.identical_key + 1, ..m }),
    ensures
        sum_el(m2, s) == sum_el(m, s) + count_key_elements(s),
    decreases s.len(),
{
    if s.len() > 0 {
        lemma_sum_bump_key(m, m2, s.drop_last());
    }
}

/// Widening the uniform gap width by one pixel widens a uniform sequence by
/// one pixel per gap element.
proof fn lemma_sum_bump_gap(m: BaseModel, m2: BaseModel, s: Seq<Element>)
    requires
        all_identical(s),
        m2 == (BaseModel { identical_gap: m.identical_gap + 1, ..m }),
    ensures
        sum_el(m2, s) == sum_el(m, s) + (s.len() - count_key_elements(s)),
    decreases s.len(),
{
    if s.len() > 0 {
        lemma_sum_bump_gap(m, m2, s.drop_last());
    }
}

/// The seeded sequence holds one key element per white key, and one gap
/// element more than that.
proof fn lemma_seed_counts(from: int, end: int)
    ensures
        all_identical(seed_elements(from, end)),
        count_key_elements(seed_elements(from, end)) == count_white(from, end),
        seed_elements(from, end).len() == 2 * count_white(from, end) + 1,
    decreases end - from,
{
    lemma_seed_identical(from, end);
    if end > from {
        lemma_seed_counts(from, end - 1);
        if spec_is_white(end - 1) {
            let prev = seed_elements(from, end - 1);
            let s = seed_elements(from, end);
            assert(s.len() == prev.len() + 2);
            assert(s.last() == Element::IdenticalGap);
            assert(s.drop_last().last() == Element::IdenticalWhite((end - 1) as u8));
            assert(s.drop_last().drop_last() =~= prev);
            assert(count_key_elements(s) == count_key_elements(s.drop_last()) + (
            if is_key_element(s.last()) {
                1int
            } else {
                0int
            }));
            assert(count_key_elements(s.drop_last()) == count_key_elements(
                s.drop_last().drop_last(),
            ) + (if is_key_element(s.drop_last().last()) {
                1int
            } else {
                0int
            }));
        } else {
            assert(seed_elements(from, end) =~= seed_elements(from, end - 1));
        }
    } else {
        let s = seed_elements(from, end);
        assert(s.drop_last() =~= Seq::<Element>::empty());
        assert(count_key_elements(s.drop_last()) == 0);
        assert(count_key_elements(s) == 0);
    }
}

/// A remainder equal to the number of white keys is resolved by widening
/// every key once: the search succeeds and the result is perfect.
pub proof fn lemma_key_bump_solves(kb: KeyboardBuilder, m0: BaseModel)
    requires
        kb.wf(),
        spec_seed(kb) == Some(m0),
        delta_of(m0) == m0.nr_of_white_keys,
    ensures
        spec_base(kb) == Some((BaseModel { identical_key: m0.identical_key + 1, ..m0 })),
        spec_perfect((BaseModel { identical_key: m0.identical_key + 1, ..m0 })),
{
    let m1 = BaseModel { identical_key: m0.identical_key + 1, ..m0 };
    let from = kb.left_white_key as int;
    let end = kb.right_white_key + 1;
    lemma_seed_fit(kb);
    lemma_seed_counts(from, end);
    assert(count_white(from, from) == 0);
    assert(count_white(from, from + 1) == 1);
    lemma_count_white_monotonic(from, from + 1, end);
    lemma_sum_bump_key(m0, m1, m0.elements);
    assert(delta_of(m1) == 0);
    assert(solve(m1, m0.nr_of_white_keys, (base_fuel(m0) - 1) as nat) == Some(m1));
}

/// A remainder equal to the number of gaps is resolved by widening every
/// gap once: the search succeeds and the result is perfect.
pub proof fn lemma_gap_bump_solves(kb: KeyboardBuilder, m0: BaseModel)
    requires
        kb.wf(),
        spec_seed(kb) == Some(m0),
        delta_of(m0) == m0.nr_of_white_keys + 1,
    ensures
        spec_base(kb) == Some((BaseModel { identical_gap: m0.identical_gap + 1, ..m0 })),
        spec_perfect((BaseModel { identical_gap: m0.identical_gap + 1, ..m0 })),
{
    let m1 = BaseModel { identical_gap: m0.identical_gap + 1, ..m0 };
    let from = kb.left_white_key as int;
    let end = kb.right_white_key + 1;
    lemma_seed_fit(kb);
    lemma_seed_counts(from, end);
    assert(count_white(from, from) == 0);
    assert(count_white(from, from + 1) == 1);
    lemma_count_white_monotonic(from, from + 1, end);
    lemma_sum_bump_gap(m0, m1, m0.elements);
    assert(delta_of(m1) == 0);
    assert(solve(m1, m0.nr_of_white_keys + 1, (base_fuel(m0) - 1) as nat) == Some(m1));
}

} // verus!
