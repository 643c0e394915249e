//! Text of the per-tile coordinate labels.
//!
//! Every tile gets a label of the form `x, y`, both coordinates written in
//! decimal with no leading zeros.

use vstd::prelude::*;
use vstd::string::StringExecFns;

use crate::grid::TileGrid;

verus! {

/// The character for a single decimal digit.
pub open spec fn digit_char(d: nat) -> char {
    if d == 0 {
        '0'
    } else if d == 1 {
        '1'
    } else if d == 2 {
        '2'
    } else if d == 3 {
        '3'
    } else if d == 4 {
        '4'
    } else if d == 5 {
        '5'
    } else if d == 6 {
        '6'
    } else if d == 7 {
        '7'
    } else if d == 8 {
        '8'
    } else {
        '9'
    }
}

/// The decimal representation of `n`, most significant digit first,
/// with no leading zeros (`0` is written as the single digit `0`).
pub open spec fn dec_rep(n: nat) -> Seq<char>
    decreases n,
{
    if n < 10 {
        seq![digit_char(n)]
    } else {
        dec_rep(n / 10).push(digit_char(n % 10))
    }
}

/// The text of the coordinate label for tile `(x, y)`.
pub open spec fn label_text(x: nat, y: nat) -> Seq<char> {
    dec_rep(x) + seq![',', ' '] + dec_rep(y)
}

/// Whether `c` is one of the ten decimal digit characters.
pub open spec fn is_digit_char(c: char) -> bool {
    c == '0' || c == '1' || c == '2' || c == '3' || c == '4' || c == '5' || c == '6' || c == '7'
        || c == '8' || c == '9'
}

/// A decimal representation is never empty and consists of digits only.
pub proof fn lemma_dec_rep_digits(n: nat)
    ensures
        dec_rep(n).len() >= 1,
        forall|i: int| 0 <= i < dec_rep(n).len() ==> is_digit_char(#[trigger] dec_rep(n)[i]),
    decreases n,
{
    vstd::arithmetic::div_mod::lemma_mod_bound(n as int, 10);
    if n >= 10 {
        lemma_dec_rep_digits(n / 10);
    }
}

/// Two numbers with the same decimal representation are the same number.
pub proof fn lemma_dec_rep_injective(a: nat, b: nat)
    requires
        dec_rep(a) == dec_rep(b),
    ensures
        a == b,
    decreases a,
{
    vstd::arithmetic::div_mod::lemma_mod_bound(a as int, 10);
    vstd::arithmetic::div_mod::lemma_mod_bound(b as int, 10);
    if a < 10 && b < 10 {
        assert(dec_rep(a)[0] == digit_char(a));
        assert(dec_rep(a)[0] == dec_rep(b)[0]);
        assert(digit_char(a) == digit_char(b));
        assert(a == b);
    } else if a < 10 {
        lemma_dec_rep_digits(b / 10);
        assert(dec_rep(a).len() == 1 && dec_rep(b).len() >= 2);
    } else if b < 10 {
        lemma_dec_rep_digits(a / 10);
        assert(dec_rep(a).len() >= 2 && dec_rep(b).len() == 1);
    } else {
        assert(dec_rep(a).last() == digit_char(a % 10));
        assert(dec_rep(b).last() == digit_char(b % 10));
        assert(digit_char(a % 10) == digit_char(b % 10));
        assert(a % 10 == b % 10);
        assert(dec_rep(a).drop_last() =~= dec_rep(a / 10));
        assert(dec_rep(b).drop_last() =~= dec_rep(b / 10));
        lemma_dec_rep_injective(a / 10, b / 10);
        vstd::arithmetic::div_mod::lemma_fundamental_div_mod(a as int, 10);
        vstd::arithmetic::div_mod::lemma_fundamental_div_mod(b as int, 10);
        assert(a == 10 * (a / 10) + a % 10);
        assert(b == 10 * (b / 10) + b % 10);
        assert(a == b);
    }
}

/// Labels identify tiles: two coordinates with the same label text are the
/// same coordinate.
pub proof fn lemma_label_text_injective(x1: nat, y1: nat, x2: nat, y2: nat)
    requires
        label_text(x1, y1) == label_text(x2, y2),
    ensures
        x1 == x2,
        y1 == y2,
{
    let a1 = dec_rep(x1);
    let b1 = dec_rep(y1);
    let a2 = dec_rep(x2);
    let b2 = dec_rep(y2);
    let sep = seq![',', ' '];
    lemma_dec_rep_digits(x1);
    lemma_dec_rep_digits(x2);
    lemma_dec_rep_digits(y1);
    lemma_dec_rep_digits(y2);
    // The first comma of the text stands right after the first coordinate,
    // since a decimal representation holds no comma.
    if a1.len() < a2.len() {
        assert((a1 + sep + b1)[a1.len() as int] == ',');
        assert((a2 + sep + b2)[a1.len() as int] == a2[a1.len() as int]);
        assert(is_digit_char(a2[a1.len() as int]));
        assert(false);
    }
    if a2.len() < a1.len() {
        assert((a2 + sep + b2)[a2.len() as int] == ',');
        assert((a1 + sep + b1)[a2.len() as int] == a1[a2.len() as int]);
        assert(is_digit_char(a1[a2.len() as int]));
        assert(false);
    }
    assert forall|i: int| 0 <= i < a1.len() implies a1[i] == a2[i] by {
        assert((a1 + sep + b1)[i] == a1[i]);
        assert((a2 + sep + b2)[i] == a2[i]);
    }
    assert(a1 =~= a2);
    lemma_dec_rep_injective(x1, x2);
    assert((a1 + sep + b1).len() == a1.len() + sep.len() + b1.len());
    assert((a2 + sep + b2).len() == a2.len() + sep.len() + b2.len());
    assert(b1.len() == b2.len());
    assert forall|i: int| 0 <= i < b1.len() implies b1[i] == b2[i] by {
        assert((a1 + sep + b1)[a1.len() + sep.len() + i] == b1[i]);
        assert((a2 + sep + b2)[a2.len() + sep.len() + i] == b2[i]);
    }
    assert(b1 =~= b2);
    lemma_dec_rep_injective(y1, y2);
}

/// The one-character string for a single decimal digit.
fn digit_str(d: u32) -> (s: &'static str)
    requires
        d < 10,
    ensures
        s@ == seq![digit_char(d as nat)],
{
    proof {
        reveal_strlit("0");
        reveal_strlit("1");
        reveal_strlit("2");
        reveal_strlit("3");
        reveal_strlit("4");
        reveal_strlit("5");
        reveal_strlit("6");
        reveal_strlit("7");
        reveal_strlit("8");
        reveal_strlit("9");
    }
    let s: &'static str = match d {
        0 => "0",
        1 => "1",
        2 => "2",
        3 => "3",
        4 => "4",
        5 => "5",
        6 => "6",
        7 => "7",
        8 => "8",
        _ => "9",
    };
    proof {
        assert(s@ =~= seq![digit_char(d as nat)]);
    }
    s
}

/// Renders `n` in decimal.
pub fn u32_to_decimal(n: u32) -> (s: String)
    ensures
        s@ == dec_rep(n as nat),
    decreases n,
{
    if n < 10 {
        String::from_str(digit_str(n))
    } else {
        let mut s = u32_to_decimal(n / 10);
        s.append(digit_str(n % 10));
        proof {
            assert(s@ =~= dec_rep(n as nat));
        }
        s
    }
}

/// The label text for tile `(x, y)`: both coordinates in decimal,
/// separated by a comma and a space.
pub fn tile_label_text(x: u32, y: u32) -> (s: String)
    ensures
        s@ == label_text(x as nat, y as nat),
{
    let mut s = u32_to_decimal(x);
    s.append(", ");
    let ys = u32_to_decimal(y);
    s.append(ys.as_str());
    proof {
        reveal_strlit(", ");
        assert(s@ =~= label_text(x as nat, y as nat));
    }
    s
}

/// One label to put up: the tile it belongs to, the tile's coordinates, and
/// the text to print.
pub struct LabelSpawn {
    pub tile: u64,
    pub x: u32,
    pub y: u32,
    pub text: String,
}

impl View for LabelSpawn {
    type V = (u64, u32, u32, Seq<char>);

    open spec fn view(&self) -> (u64, u32, u32, Seq<char>) {
        (self.tile, self.x, self.y, self.text@)
    }
}

/// The labels for the stored tiles among the first `n` slots of the grid, in
/// slot (row-major) order: slot `i` holds coordinate `(i % width, i / width)`.
pub open spec fn plan_upto(g: TileGrid, n: int) -> Seq<(u64, u32, u32, Seq<char>)>
    decreases n,
{
    if n <= 0 {
        Seq::empty()
    } else {
        let i = n - 1;
        let w = g.spec_width() as int;
        let x = i % w;
        let y = i / w;
        plan_upto(g, i) + match g.tile_at(x, y) {
            Some(e) => seq![(e, x as u32, y as u32, label_text(x as nat, y as nat))],
            None => Seq::<(u64, u32, u32, Seq<char>)>::empty(),
        }
    }
}

/// One label for every stored tile of the grid, in row-major order.
pub open spec fn spec_label_plan(g: TileGrid) -> Seq<(u64, u32, u32, Seq<char>)> {
    plan_upto(g, g.spec_width() as int * g.spec_height() as int)
}

/// Entries of a partial plan survive into every larger one.
proof fn lemma_plan_upto_monotone(g: TileGrid, m: int, n: int, e: (u64, u32, u32, Seq<char>))
    requires
        m <= n,
        plan_upto(g, m).contains(e),
    ensures
        plan_upto(g, n).contains(e),
    decreases n - m,
{
    if m < n {
        lemma_plan_upto_monotone(g, m, n - 1, e);
        let j = choose|j: int|
            0 <= j < plan_upto(g, n - 1).len() && #[trigger] plan_upto(g, n - 1)[j] == e;
        assert(plan_upto(g, n)[j] == e);
    }
}

/// Entries of a partial plan are sound (inductive helper).
proof fn lemma_plan_upto_entries_sound(g: TileGrid, n: int, k: int)
    requires
        g.wf(),
        n <= g.spec_width() as int * g.spec_height() as int,
        0 <= k < plan_upto(g, n).len(),
    ensures
        ({
            let e = plan_upto(g, n)[k];
            &&& g.in_bounds(e.1 as int, e.2 as int)
            &&& g.tile_at(e.1 as int, e.2 as int) == Some(e.0)
            &&& e.3 == label_text(e.1 as nat, e.2 as nat)
        }),
    decreases n,
{
    if n > 0 {
        let i = n - 1;
        let w = g.spec_width() as int;
        let h = g.spec_height() as int;
        if k < plan_upto(g, i).len() {
            lemma_plan_upto_entries_sound(g, i, k);
        } else {
            assert(w > 0) by (nonlinear_arith)
                requires
                    0 < n <= w * h,
                    0 <= h,
            ;
            vstd::arithmetic::div_mod::lemma_fundamental_div_mod(i, w);
            vstd::arithmetic::div_mod::lemma_mod_bound(i, w);
            assert(0 <= i / w && i / w < h) by (nonlinear_arith)
                requires
                    w > 0,
                    0 <= i < w * h,
                    i == w * (i / w) + (i % w),
                    0 <= i % w < w,
            ;
        }
    }
}

/// Every entry of the label plan is sound: its coordinates lie on the map,
/// the grid stores exactly its tile there, and its text is that coordinate's
/// label text.
pub proof fn lemma_label_plan_sound(g: TileGrid, k: int)
    requires
        g.wf(),
        0 <= k < spec_label_plan(g).len(),
    ensures
        ({
            let e = spec_label_plan(g)[k];
            &&& g.in_bounds(e.1 as int, e.2 as int)
            &&& g.tile_at(e.1 as int, e.2 as int) == Some(e.0)
            &&& e.3 == label_text(e.1 as nat, e.2 as nat)
        }),
{
    lemma_plan_upto_entries_sound(g, g.spec_width() as int * g.spec_height() as int, k);
}

/// Every stored tile gets its label: the plan of the whole grid contains the
/// tile's entry, with that coordinate's label text.
pub proof fn lemma_label_plan_complete(g: TileGrid, x: int, y: int)
    requires
        g.wf(),
        g.in_bounds(x, y),
        g.tile_at(x, y) is Some,
    ensures
        spec_label_plan(g).contains(
            (g.tile_at(x, y)->Some_0, x as u32, y as u32, label_text(x as nat, y as nat)),
        ),
{
    let w = g.spec_width() as int;
    let h = g.spec_height() as int;
    let i = y * w + x;
    assert(0 <= y * w + x && y * w + x < w * h) by (nonlinear_arith)
        requires
            0 <= x < w,
            0 <= y < h,
    ;
    vstd::arithmetic::div_mod::lemma_fundamental_div_mod_converse(i, w, y, x);
    let e = (g.tile_at(x, y)->Some_0, x as u32, y as u32, label_text(x as nat, y as nat));
    assert(plan_upto(g, i + 1)[plan_upto(g, i).len() as int] == e);
    assert(plan_upto(g, i + 1).contains(e));
    lemma_plan_upto_monotone(g, i + 1, w * h, e);
}

/// Plans the one-off spawning of the coordinate labels.
///
/// While `spawned` is unset, returns one label per stored tile, in row-major
/// order, and records that labels were put up as soon as there was at least
/// one of them, exactly as the per-tile spawning loop does.  Once `spawned`
/// is set, there is nothing to do.
#[verifier::loop_isolation(false)]
pub fn plan_tile_labels(g: &TileGrid, spawned: &mut bool) -> (plan: Option<Vec<LabelSpawn>>)
    requires
        g.wf(),
    ensures
        *old(spawned) ==> plan is None && *final(spawned),
        !*old(spawned) ==> {
            &&& plan is Some
            &&& plan->Some_0@.map_values(|l: LabelSpawn| l@) == spec_label_plan(*g)
            &&& *final(spawned) == (spec_label_plan(*g).len() > 0)
        },
{
    if *spawned {
        return None;
    }
    let w = g.width();
    let h = g.height();
    let mut out: Vec<LabelSpawn> = Vec::new();
    let mut y: u32 = 0;
    while y < h
        invariant
            y <= h,
            out@.map_values(|l: LabelSpawn| l@) == plan_upto(*g, y as int * w as int),
            *spawned == (out@.len() > 0),
        decreases h - y,
    {
        let mut x: u32 = 0;
        while x < w
            invariant
                x <= w,
                y < h,
                out@.map_values(|l: LabelSpawn| l@) == plan_upto(*g, y as int * w as int + x as int),
                *spawned == (out@.len() > 0),
            decreases w - x,
        {
            let ghost i = y as int * w as int + x as int;
            proof {
                vstd::arithmetic::div_mod::lemma_fundamental_div_mod_converse(
                    i,
                    w as int,
                    y as int,
                    x as int,
                );
            }
            match g.get(x, y) {
                Some(e) => {
                    let text = tile_label_text(x, y);
                    out.push(LabelSpawn { tile: e, x, y, text });
                    *spawned = true;
                },
                None => {},
            }
            proof {
                assert(out@.map_values(|l: LabelSpawn| l@) =~= plan_upto(*g, i + 1));
            }
            x = x + 1;
        }
        proof {
            assert((y + 1) as int * w as int == y as int * w as int + w as int) by (nonlinear_arith);
        }
        y = y + 1;
    }
    proof {
        assert(h as int * w as int == w as int * h as int) by (nonlinear_arith);
        assert(out@.map_values(|l: LabelSpawn| l@).len() == out@.len());
    }
    Some(out)
}

} // verus!
