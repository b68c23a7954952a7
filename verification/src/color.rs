//! Colors for telling the output of one command from that of another.

use crate::decimal::{decimal, push_digits};
use crate::name_map::NameMap;
use vstd::prelude::*;
use vstd::string::StringExecFns;

verus! {

/// The color in which a command's messages are printed on a terminal.
#[derive(Clone, Copy, Debug, PartialEq, Eq, Structural)]
pub enum Color {
    /// A color given by its red, green and blue parts.
    RGB(u8, u8, u8),
    /// A color to be picked when the run starts, as far on the color wheel
    /// from the colors picked for the other commands as can be.
    Random,
    /// The color that the terminal uses by itself.
    Default,
}

impl Color {
    /// Red.
    pub fn red() -> (c: Color)
        ensures
            c == Color::RGB(255, 0, 0),
    {
        Color::RGB(255, 0, 0)
    }

    /// Green.
    pub fn green() -> (c: Color)
        ensures
            c == Color::RGB(0, 255, 0),
    {
        Color::RGB(0, 255, 0)
    }

    /// Yellow.
    pub fn yellow() -> (c: Color)
        ensures
            c == Color::RGB(255, 255, 0),
    {
        Color::RGB(255, 255, 0)
    }

    /// Blue.
    pub fn blue() -> (c: Color)
        ensures
            c == Color::RGB(0, 0, 255),
    {
        Color::RGB(0, 0, 255)
    }

    /// Magenta.
    pub fn magenta() -> (c: Color)
        ensures
            c == Color::RGB(255, 0, 255),
    {
        Color::RGB(255, 0, 255)
    }

    /// Cyan.
    pub fn cyan() -> (c: Color)
        ensures
            c == Color::RGB(0, 255, 255),
    {
        Color::RGB(0, 255, 255)
    }

    /// White as this library prints it: red and green at
    /// full strength, no blue.
    pub fn white() -> (c: Color)
        ensures
            c == Color::RGB(255, 255, 0),
    {
        Color::RGB(255, 255, 0)
    }

    /// Black.
    pub fn black() -> (c: Color)
        ensures
            c == Color::RGB(0, 0, 0),
    {
        Color::RGB(0, 0, 0)
    }

    /// The color with the parts `r`, `g` and `b`.
    pub fn rgb(r: u8, g: u8, b: u8) -> (c: Color)
        ensures
            c == Color::RGB(r, g, b),
    {
        Color::RGB(r, g, b)
    }
}

impl Default for Color {
    fn default() -> (c: Color)
        ensures
            c == Color::Default,
    {
        Color::Default
    }
}

/// A byte drawn by `rand::random::<u8>()`. Nothing is claimed of it.
#[verifier::external_body]
fn random_u8() -> (r: u8) {
    rand::random::<u8>()
}

/// A number drawn by `rand::random::<u32>()`. Nothing is claimed of it.
#[verifier::external_body]
fn random_u32() -> (r: u32) {
    rand::random::<u32>()
}

/// Whether standard out is a terminal at this moment, as
/// `atty::is(atty::Stream::Stdout)` says.
#[verifier::external_body]
fn stdout_is_tty() -> (tty: bool) {
    atty::is(atty::Stream::Stdout)
}

/// Two to the power of 53: how many values a binary fraction of 53 digits
/// tells apart between one power of two and the next.
pub const TWO_53: u128 = 0x20_0000_0000_0000;

/// Two to the power of 58, the finest scale that an angle needs.
pub const TOP_SCALE: u128 = 0x400_0000_0000_0000;

/// The scale, a power of two, at which a sixtieth of `theta` has 53 binary
/// digits: the largest of `p`, `p / 2`, `p / 4`, .. at which it stays below
/// two to the power of 53.
pub open spec fn wheel_scale(theta: int, p: int) -> int
    decreases p,
{
    if p > 1 && theta * p >= 60 * TWO_53 {
        wheel_scale(theta, p / 2)
    } else {
        p
    }
}

/// The multiple of `q` that is nearest to `v`; of two that are equally
/// near, the even multiple.
pub open spec fn nearest_even(v: int, q: int) -> int {
    let m = v / q;
    let r = v % q;
    if 2 * r > q || (2 * r == q && m % 2 == 1) {
        (m + 1) * q
    } else {
        m * q
    }
}

/// The step, a power of two, in which `v` has at most 53 binary digits:
/// the smallest of `q`, `2 q`, `4 q`, .. of which `v` holds fewer than two
/// to the power of 53.
pub open spec fn unit_53(v: int, q: int) -> int
    decreases 0x4000 - q,
{
    if 0 < q < 0x2000 && v / q >= TWO_53 {
        unit_53(v, 2 * q)
    } else {
        q
    }
}

/// `v` rounded to 53 binary digits, halves to the even side.
pub open spec fn rounded_53(v: int) -> int {
    nearest_even(v, unit_53(v, 1))
}

/// The color part that changes along the wheel, at the angle `theta`: it
/// climbs from 0 to 255 over sixty degrees and falls back over the next
/// sixty, rounded to the nearest whole number, halves upward.
///
/// The part is worked out in binary fractions of 53 digits, in which a
/// sixtieth has no exact form, and each step is rounded as such fractions
/// are: the sixtieth of the angle, its distance from the nearest odd
/// number, and 255 times what that distance lacks to one. So a part that
/// would lie exactly halfway comes out just above at some angles and just
/// below at others. All values are counted in units of one over the scale.
pub open spec fn wheel_part(theta: int) -> int {
    let p = wheel_scale(theta, TOP_SCALE as int);
    let h = nearest_even(theta * p, 60) / 60;
    let far = h % (2 * p);
    let d = if far >= p {
        far - p
    } else {
        p - far
    };
    let d53 = rounded_53(d);
    let x = if d53 <= p {
        p - d53
    } else {
        0
    };
    let y = rounded_53(255 * x);
    let r = (2 * y + p) / (2 * p);
    if r <= 255 {
        r
    } else {
        255
    }
}

/// The fully saturated color at the angle `theta` of the color wheel, in
/// degrees: red at 0, yellow at 60, green at 120, cyan at 180, blue at 240,
/// magenta at 300. From 300 degrees on, all angles lie between magenta and
/// red: the wheel is not walked round again.
pub open spec fn wheel_color(theta: int) -> Color {
    let x = wheel_part(theta) as u8;
    if theta < 60 {
        Color::RGB(255, x, 0)
    } else if theta < 120 {
        Color::RGB(x, 255, 0)
    } else if theta < 180 {
        Color::RGB(0, 255, x)
    } else if theta < 240 {
        Color::RGB(0, x, 255)
    } else if theta < 300 {
        Color::RGB(x, 0, 255)
    } else {
        Color::RGB(255, 0, x)
    }
}

/// The scale at which a sixtieth of `theta` has 53 binary digits.
fn scale_of(theta: u32) -> (p: u128)
    ensures
        p == wheel_scale(theta as int, TOP_SCALE as int),
        1 <= p <= TOP_SCALE,
{
    let mut p: u128 = TOP_SCALE;
    loop
        invariant
            1 <= p <= TOP_SCALE,
            wheel_scale(theta as int, p as int) == wheel_scale(theta as int, TOP_SCALE as int),
        decreases p,
    {
        assert(theta * p <= 0xffff_ffff * 0x400_0000_0000_0000) by (nonlinear_arith)
            requires
                theta <= 0xffff_ffff,
                p <= 0x400_0000_0000_0000,
        ;
        if p > 1 && (theta as u128) * p >= 60 * TWO_53 {
            p = p / 2;
        } else {
            return p;
        }
    }
}

/// The multiple of `q` that is nearest to `v`, halves to the even side.
fn round_to(v: u128, q: u128) -> (r: u128)
    requires
        0 < q <= 0x4000,
        v <= 0x1_0000_0000_0000_0000_0000_0000,
    ensures
        r == nearest_even(v as int, q as int),
        r <= v + q,
{
    let m: u128 = v / q;
    let rem: u128 = v % q;
    proof {
        vstd::arithmetic::div_mod::lemma_fundamental_div_mod(v as int, q as int);
        vstd::arithmetic::div_mod::lemma_mod_bound(v as int, q as int);
        assert((m + 1) * q == q * m + q) by (nonlinear_arith);
        assert(m * q == q * m) by (nonlinear_arith);
    }
    if 2 * rem > q || (2 * rem == q && m % 2 == 1) {
        (m + 1) * q
    } else {
        m * q
    }
}

/// The step in which `v` has at most 53 binary digits.
fn unit_of(v: u128) -> (q: u128)
    ensures
        q == unit_53(v as int, 1),
        1 <= q <= 0x4000,
{
    let mut q: u128 = 1;
    while q < 0x2000 && v / q >= TWO_53
        invariant
            1 <= q <= 0x4000,
            unit_53(v as int, q as int) == unit_53(v as int, 1),
        decreases 0x4000 - q,
    {
        q = 2 * q;
    }
    q
}

/// `v` rounded to 53 binary digits.
fn round_53(v: u128) -> (r: u128)
    requires
        v <= 0x1_0000_0000_0000_0000_0000_0000,
    ensures
        r == rounded_53(v as int),
        r <= v + 0x4000,
{
    round_to(v, unit_of(v))
}

/// The color part that changes along the wheel, at the angle `theta`.
fn part_of(theta: u32) -> (x: u8)
    ensures
        x == wheel_part(theta as int),
{
    let p: u128 = scale_of(theta);
    assert(theta * p <= 0xffff_ffff * 0x400_0000_0000_0000) by (nonlinear_arith)
        requires
            theta <= 0xffff_ffff,
            p <= 0x400_0000_0000_0000,
    ;
    let h: u128 = round_to((theta as u128) * p, 60) / 60;
    let far: u128 = h % (2 * p);
    proof {
        vstd::arithmetic::div_mod::lemma_mod_bound(h as int, 2 * p);
    }
    let d: u128 = if far >= p {
        far - p
    } else {
        p - far
    };
    let d53: u128 = round_53(d);
    let x: u128 = if d53 <= p {
        p - d53
    } else {
        0
    };
    let y: u128 = round_53(255 * x);
    let r: u128 = (2 * y + p) / (2 * p);
    if r <= 255 {
        r as u8
    } else {
        255
    }
}

/// The color at the angle `theta` of the color wheel.
pub fn theta_to_rgb(theta: u32) -> (c: Color)
    ensures
        c == wheel_color(theta as int),
        c is RGB,
{
    let x: u8 = part_of(theta);
    if theta < 60 {
        Color::RGB(255, x, 0)
    } else if theta < 120 {
        Color::RGB(x, 255, 0)
    } else if theta < 180 {
        Color::RGB(0, 255, x)
    } else if theta < 240 {
        Color::RGB(0, x, 255)
    } else if theta < 300 {
        Color::RGB(x, 0, 255)
    } else {
        Color::RGB(255, 0, x)
    }
}

/// The angle of the `i`-th of the colors that are set `space` degrees
/// apart around the wheel, beginning at `start`.
pub open spec fn wheel_angle(start: int, space: int, i: nat) -> int
    decreases i,
{
    if i == 0 {
        start
    } else {
        (wheel_angle(start, space, (i - 1) as nat) + space) % 360
    }
}

/// `n` colors set evenly around the color wheel, the first at the angle
/// `start`: each lies `360 / n` whole degrees behind the one before it.
pub open spec fn wheel_colors(start: int, n: nat) -> Seq<Color> {
    Seq::new(n, |i: int| wheel_color(wheel_angle(start, 360int / (n as int), i as nat)))
}

/// `num_cmds` colors set evenly around the color wheel, beginning at
/// `start`.
pub fn color_list_from(start: u32, num_cmds: u32) -> (colors: Vec<Color>)
    ensures
        colors@ == wheel_colors(start as int, num_cmds as nat),
        forall|i: int| 0 <= i < colors@.len() ==> (#[trigger] colors@[i]) is RGB,
{
    let mut colors: Vec<Color> = Vec::new();
    if num_cmds == 0 {
        proof {
            assert(colors@ =~= wheel_colors(start as int, 0));
        }
        return colors;
    }
    let space: u32 = 360 / num_cmds;
    let mut angle: u32 = start;
    while colors.len() < num_cmds as usize
        invariant
            num_cmds > 0,
            space == 360int / (num_cmds as int),
            colors@.len() <= num_cmds,
            space <= 360,
            angle == wheel_angle(start as int, space as int, colors@.len()),
            forall|i: int|
                0 <= i < colors@.len() ==> #[trigger] colors@[i] == wheel_color(
                    wheel_angle(start as int, space as int, i as nat),
                ),
            forall|i: int| 0 <= i < colors@.len() ==> (#[trigger] colors@[i]) is RGB,
        decreases num_cmds - colors@.len(),
    {
        colors.push(theta_to_rgb(angle));
        let next: u64 = (angle as u64 + space as u64) % 360;
        angle = next as u32;
    }
    proof {
        assert(colors@ =~= wheel_colors(start as int, num_cmds as nat));
    }
    colors
}

impl Color {
    /// A color whose three parts are each drawn at random.
    pub fn true_random() -> (c: Color)
        ensures
            c is RGB,
    {
        Color::RGB(random_u8(), random_u8(), random_u8())
    }

    /// `num_cmds` colors that are as easy to tell apart as can be: they
    /// are set evenly around the color wheel, beginning at an angle drawn
    /// at random.
    pub fn random_color_list(num_cmds: u32) -> (colors: Vec<Color>)
        ensures
            colors@.len() == num_cmds,
            exists|start: int| 0 <= start < 360 && colors@ == wheel_colors(start, num_cmds as nat),
            forall|i: int| 0 <= i < colors@.len() ==> (#[trigger] colors@[i]) is RGB,
    {
        let start: u32 = random_u32() % 360;
        let colors = color_list_from(start, num_cmds);
        proof {
            assert(colors@ == wheel_colors(start as int, num_cmds as nat));
        }
        colors
    }
}

/// The characters that switch a terminal to the color with the parts `r`,
/// `g` and `b`.
pub open spec fn rgb_sequence(r: u8, g: u8, b: u8) -> Seq<char> {
    "\x1b[38;2;"@ + decimal(r as int) + ";"@ + decimal(g as int) + ";"@ + decimal(b as int) + "m"@
}

/// The characters that switch a terminal back to its own color.
pub open spec fn reset_sequence() -> Seq<char> {
    "\x1b[0m"@
}

/// What is printed to switch to `color`: nothing where standard out is no
/// terminal (`tty` is false); else the sequence of the color, with the
/// parts `picked` for `Random`, and the reset sequence for `Default`.
pub open spec fn open_sequence_of(color: Color, tty: bool, picked: (u8, u8, u8)) -> Seq<char> {
    if !tty {
        Seq::empty()
    } else {
        match color {
            Color::RGB(r, g, b) => rgb_sequence(r, g, b),
            Color::Random => rgb_sequence(picked.0, picked.1, picked.2),
            Color::Default => reset_sequence(),
        }
    }
}

/// What is printed to switch back from a color: the reset sequence on a
/// terminal, nothing elsewhere.
pub open spec fn close_sequence_of(tty: bool) -> Seq<char> {
    if tty {
        reset_sequence()
    } else {
        Seq::empty()
    }
}

/// The string that switches a terminal to the color with the parts `r`,
/// `g` and `b`.
pub fn rgb_string(r: u8, g: u8, b: u8) -> (s: String)
    ensures
        s@ == rgb_sequence(r, g, b),
{
    let mut s = String::new();
    s.append("\x1b[38;2;");
    push_digits(&mut s, r as u64);
    s.append(";");
    push_digits(&mut s, g as u64);
    s.append(";");
    push_digits(&mut s, b as u64);
    s.append("m");
    proof {
        assert(s@ =~= rgb_sequence(r, g, b));
    }
    s
}

/// What is printed to switch to `color`, given whether standard out is a
/// terminal and the parts to use for `Random`.
pub fn open_sequence_with(color: &Color, tty: bool, picked: (u8, u8, u8)) -> (s: String)
    ensures
        s@ == open_sequence_of(*color, tty, picked),
{
    if tty {
        match color {
            Color::RGB(r, g, b) => rgb_string(*r, *g, *b),
            Color::Random => rgb_string(picked.0, picked.1, picked.2),
            Color::Default => "\x1b[0m".to_owned(),
        }
    } else {
        String::new()
    }
}

/// What is printed to switch back from a color, given whether standard out
/// is a terminal.
pub fn close_sequence_with(tty: bool) -> (s: String)
    ensures
        s@ == close_sequence_of(tty),
{
    if tty {
        "\x1b[0m".to_owned()
    } else {
        String::new()
    }
}

/// What is printed to switch to `color`. Whether standard out is a
/// terminal is asked at this moment; the parts of a `Random` color are
/// drawn at random.
pub fn open_sequence(color: &Color) -> (s: String)
    ensures
        exists|tty: bool, picked: (u8, u8, u8)| s@ == open_sequence_of(*color, tty, picked),
{
    let tty = stdout_is_tty();
    let picked: (u8, u8, u8) = match color {
        Color::Random => if tty {
            (random_u8(), random_u8(), random_u8())
        } else {
            (0, 0, 0)
        },
        _ => (0, 0, 0),
    };
    let s = open_sequence_with(color, tty, picked);
    proof {
        assert(s@ == open_sequence_of(*color, tty, picked));
    }
    s
}

/// What is printed to switch back from a color. Whether standard out is a
/// terminal is asked at this moment.
pub fn close_sequence() -> (s: String)
    ensures
        exists|tty: bool| s@ == close_sequence_of(tty),
{
    let tty = stdout_is_tty();
    let s = close_sequence_with(tty);
    proof {
        assert(s@ == close_sequence_of(tty));
    }
    s
}

/// The number of `Random` among the first `n` of `colors`.
pub open spec fn count_random(colors: Seq<Color>, n: int) -> nat
    decreases n,
{
    if n <= 0 {
        0
    } else {
        count_random(colors, n - 1) + if colors[n - 1] == Color::Random {
            1nat
        } else {
            0nat
        }
    }
}

/// `colors` with each `Random` replaced by one of `picks`, which are
/// handed out from the last to the first: the first `Random` gets the last
/// pick. Every other color stays.
pub open spec fn with_picks(colors: Seq<Color>, picks: Seq<Color>) -> Seq<Color> {
    Seq::new(
        colors.len(),
        |i: int|
            if colors[i] == Color::Random {
                picks[picks.len() - 1 - count_random(colors, i)]
            } else {
                colors[i]
            },
    )
}

/// There are no more `Random` among the first `n` colors than `n`.
pub proof fn lemma_count_random_bound(colors: Seq<Color>, n: int)
    requires
        0 <= n,
    ensures
        count_random(colors, n) <= n,
    decreases n,
{
    if n > 0 {
        lemma_count_random_bound(colors, n - 1);
    }
}

/// Replaces each `Random` of `color_list` by one of `picks`, of which
/// there are as many as there are `Random` in the list.
pub fn assign_colors(color_list: &mut NameMap<Color>, picks: Vec<Color>)
    requires
        old(color_list).wf(),
        picks@.len() == count_random(
            old(color_list).values(),
            old(color_list).values().len() as int,
        ),
    ensures
        final(color_list).wf(),
        final(color_list).names() == old(color_list).names(),
        final(color_list).values() == with_picks(old(color_list).values(), picks@),
{
    let ghost given = color_list.values();
    let ghost all = picks@;
    let mut picks = picks;
    let n: usize = color_list.len();
    let mut i: usize = 0;
    while i < n
        invariant
            i <= n,
            n == given.len(),
            color_list.wf(),
            color_list.names() == old(color_list).names(),
            color_list.values().len() == n,
            all.len() == count_random(given, n as int),
            picks@ == all.take(all.len() - count_random(given, i as int)),
            forall|k: int| 0 <= k < i ==> #[trigger] color_list.values()[k] == with_picks(given, all)[k],
            forall|k: int| i <= k < n ==> #[trigger] color_list.values()[k] == given[k],
        decreases n - i,
    {
        proof {
            lemma_count_random_monotone(given, i as int + 1, n as int);
        }
        if *color_list.value_at(i) == Color::Random {
            let pick = picks.pop().unwrap();
            color_list.set_value_at(i, pick);
            proof {
                assert(picks@ =~= all.take(all.len() - count_random(given, i as int + 1)));
            }
        }
        i = i + 1;
    }
    proof {
        assert(color_list.values() =~= with_picks(given, all));
    }
}

/// Counting `Random` over more colors never gives less.
pub proof fn lemma_count_random_monotone(colors: Seq<Color>, m: int, n: int)
    requires
        0 <= m <= n,
    ensures
        count_random(colors, m) <= count_random(colors, n),
    decreases n - m,
{
    if m < n {
        lemma_count_random_monotone(colors, m, n - 1);
    }
}

/// Gives each command whose color is `Random` a color of its own: as many
/// colors as there are such commands are set evenly around the color
/// wheel, beginning at an angle drawn at random, and handed out. Names and
/// all other colors stay, and no `Random` is left.
pub fn populate_random_colors(color_list: &mut NameMap<Color>)
    requires
        old(color_list).wf(),
        old(color_list).names().len() <= u32::MAX,
    ensures
        final(color_list).wf(),
        final(color_list).names() == old(color_list).names(),
        exists|start: int|
            0 <= start < 360 && final(color_list).values() == with_picks(
                old(color_list).values(),
                wheel_colors(
                    start,
                    count_random(old(color_list).values(), old(color_list).values().len() as int),
                ),
            ),
        forall|i: int|
            0 <= i < final(color_list).values().len() ==> (#[trigger] final(color_list).values()[i])
                != Color::Random,
{
    let n: usize = color_list.len();
    let mut num_random: u32 = 0;
    let mut i: usize = 0;
    while i < n
        invariant
            i <= n,
            n == color_list.values().len(),
            n <= u32::MAX,
            color_list.wf(),
            *color_list == *old(color_list),
            num_random == count_random(color_list.values(), i as int),
            num_random <= i,
        decreases n - i,
    {
        if *color_list.value_at(i) == Color::Random {
            num_random = num_random + 1;
        }
        i = i + 1;
    }
    let random_list = Color::random_color_list(num_random);
    let ghost picks = random_list@;
    assign_colors(color_list, random_list);
    proof {
        let given = old(color_list).values();
        assert forall|k: int| 0 <= k < color_list.values().len() implies (
        #[trigger] color_list.values()[k]) != Color::Random by {
            if given[k] == Color::Random {
                lemma_count_random_bound(given, k);
                lemma_count_random_monotone(given, k + 1, n as int);
                assert(picks[picks.len() - 1 - count_random(given, k)] is RGB);
            }
        }
    }
}

} // verus!
