use vstd::prelude::*;
use crate::rounding::{round_quotient, lemma_round_shift, lemma_round_bounds, lemma_round_monotone};

verus! {

/// Raw auxiliary codes per millivolt: one code unit is 100 microvolts.
pub const CODES_PER_MILLIVOLT: u32 = 10;

/// Largest magnitude, in whole degrees, of a tabulated temperature, so that
/// tenths of a degree fit in an `i16`.
pub const TEMP_LIMIT: i16 = 3276;

/// The calibration of a thermistor divider, as mathematical values.
pub struct Calibration {
    /// Supply voltage of the divider, in millivolts.
    pub supply_mv: int,
    /// Fixed resistor of the divider, in ohms.
    pub fixed_ohms: int,
    /// Temperature of the first table entry, in degrees.
    pub min_temp: int,
    /// Temperature of the last table entry, in degrees.
    pub max_temp: int,
    /// Degrees between two table entries.
    pub increment: int,
    /// Thermistor resistance in ohms at each tabulated temperature.
    pub lut: Seq<int>,
}

impl Calibration {
    /// The table is strictly decreasing and its ends agree with the
    /// temperature range; tenths of a degree of that range fit in an `i16`.
    pub open spec fn wf(self) -> bool {
        &&& self.supply_mv > 0
        &&& self.fixed_ohms >= 0
        &&& self.increment > 0
        &&& self.lut.len() >= 1
        &&& forall|i: int| 0 <= i < self.lut.len() - 1 ==> #[trigger] self.lut[i] > self.lut[i + 1]
        &&& forall|i: int| 0 <= i < self.lut.len() ==> #[trigger] self.lut[i] >= 0
        &&& self.min_temp + (self.lut.len() - 1) * self.increment == self.max_temp
        &&& -TEMP_LIMIT <= self.min_temp
        &&& self.max_temp <= TEMP_LIMIT
    }

    /// The supply voltage in raw code units.
    pub open spec fn supply_codes(self) -> int {
        self.supply_mv * CODES_PER_MILLIVOLT
    }

    /// The last (lowest) tabulated resistance.
    pub open spec fn last(self) -> int {
        self.lut[self.lut.len() - 1]
    }

    /// Entries `i - 1` and `i` enclose the resistance `n / d`:
    /// `lut[i] <= n / d < lut[i - 1]`.
    pub open spec fn brackets(self, i: int, n: int, d: int) -> bool {
        &&& 1 <= i < self.lut.len()
        &&& self.lut[i] * d <= n
        &&& n < self.lut[i - 1] * d
    }

    /// Tenths of a degree, rounded, of the straight line between entries
    /// `i - 1` and `i` at resistance `n / d`:
    /// `min + (i - 1) * inc + inc * (1 - (r - lut[i]) / (lut[i - 1] - lut[i]))`.
    pub open spec fn interpolated_tenths(self, i: int, n: int, d: int) -> int {
        let span = d * (self.lut[i - 1] - self.lut[i]);
        round_quotient(
            10 * ((self.min_temp + (i - 1) * self.increment) * span + self.increment * (span - (n
                - self.lut[i] * d))),
            span,
        )
    }

    /// Tenths of a degree at the finite resistance `n / d` ohms (`d > 0`):
    /// the warm end at or below the last entry, the cold end at or above the
    /// first, the interpolation between the enclosing entries otherwise.
    pub open spec fn tenths_at_resistance(self, n: int, d: int) -> int {
        if n <= self.last() * d {
            10 * self.max_temp
        } else if n >= self.lut[0] * d {
            10 * self.min_temp
        } else {
            let i = choose|i: int| self.brackets(i, n, d);
            self.interpolated_tenths(i, n, d)
        }
    }

    /// Tenths of a degree for a raw code. The divider gives the resistance
    /// `code * fixed / (supply - code)`; a code equal to the supply stands
    /// for an unbounded resistance (the cold end), and one above it for a
    /// negative resistance, below every entry (the warm end).
    pub open spec fn tenths_at_code(self, code: int) -> int {
        let d = self.supply_codes() - code;
        if d == 0 {
            10 * self.min_temp
        } else if d < 0 {
            10 * self.max_temp
        } else {
            self.tenths_at_resistance(code * self.fixed_ohms, d)
        }
    }

    /// The resistance `code * fixed / (supply - code)` is at least `ohms`.
    pub open spec fn resistance_at_least(self, code: int, ohms: int) -> bool {
        let d = self.supply_codes() - code;
        d == 0 || (d > 0 && code * self.fixed_ohms >= ohms * d)
    }

    /// The resistance `code * fixed / (supply - code)` is at most `ohms`.
    pub open spec fn resistance_at_most(self, code: int, ohms: int) -> bool {
        let d = self.supply_codes() - code;
        d < 0 || (d > 0 && code * self.fixed_ohms <= ohms * d)
    }
}

/// Converts raw auxiliary codes into temperatures through a voltage divider
/// and a table of thermistor resistances.
pub struct Thermistor {
    vreg: u16,
    rntc: u32,
    min_temp: i16,
    max_temp: i16,
    temp_increment: u16,
    lut_length: u16,
    lut: Vec<u32>,
}

/// The calibration that these raw values describe.
pub open spec fn calibration_of(
    vreg: u16,
    rntc: u32,
    min_temp: i16,
    max_temp: i16,
    temp_increment: u16,
    lut: Seq<u32>,
) -> Calibration {
    Calibration {
        supply_mv: vreg as int,
        fixed_ohms: rntc as int,
        min_temp: min_temp as int,
        max_temp: max_temp as int,
        increment: temp_increment as int,
        lut: lut.map_values(|x: u32| x as int),
    }
}

impl View for Thermistor {
    type V = Calibration;

    closed spec fn view(&self) -> Calibration {
        calibration_of(
            self.vreg,
            self.rntc,
            self.min_temp,
            self.max_temp,
            self.temp_increment,
            self.lut@,
        )
    }
}

impl Thermistor {
    /// The fields agree with the view: the stored length is the table's.
    pub closed spec fn wf(&self) -> bool {
        &&& self.lut_length as int == self.lut@.len()
        &&& self@.wf()
    }

    /// Builds a converter. `vreg` is in millivolts, `rntc` and the table in
    /// ohms, temperatures in degrees.
    pub fn new(
        vreg: u16,
        rntc: u32,
        min_temp: i16,
        max_temp: i16,
        temp_increment: u16,
        lut_length: u16,
        lut: Vec<u32>,
    ) -> (r: Self)
        requires
            lut_length as int == lut@.len(),
            calibration_of(vreg, rntc, min_temp, max_temp, temp_increment, lut@).wf(),
        ensures
            r.wf(),
            r@ == calibration_of(vreg, rntc, min_temp, max_temp, temp_increment, lut@),
    {
        Thermistor { vreg, rntc, min_temp, max_temp, temp_increment, lut_length, lut }
    }

    /// Whether these values make a converter: the stored length is the
    /// table's and the calibration is well formed.
    pub fn is_valid_calibration(
        vreg: u16,
        rntc: u32,
        min_temp: i16,
        max_temp: i16,
        temp_increment: u16,
        lut_length: u16,
        lut: &Vec<u32>,
    ) -> (r: bool)
        ensures
            r == (lut_length as int == lut@.len() && calibration_of(
                vreg,
                rntc,
                min_temp,
                max_temp,
                temp_increment,
                lut@,
            ).wf()),
    {
        let ghost cal = calibration_of(vreg, rntc, min_temp, max_temp, temp_increment, lut@);
        proof {
            assert(cal.lut.len() == lut@.len());
            assert forall|k: int| 0 <= k < lut@.len() implies cal.lut[k] == lut@[k] as int by {}
        }
        if lut_length as usize != lut.len() || lut.len() == 0 || vreg == 0 || temp_increment == 0 {
            return false;
        }
        if min_temp < -TEMP_LIMIT || max_temp > TEMP_LIMIT {
            return false;
        }
        assert((lut_length - 1) * temp_increment <= 0xffff * 0xffff) by (nonlinear_arith)
            requires 1 <= lut_length <= 0xffff, temp_increment <= 0xffff;
        let span: i64 = (lut_length as i64 - 1) * temp_increment as i64;
        if min_temp as i64 + span != max_temp as i64 {
            return false;
        }
        let mut k: usize = 1;
        while k < lut.len()
            invariant
                1 <= k <= lut@.len(),
                cal == calibration_of(vreg, rntc, min_temp, max_temp, temp_increment, lut@),
                cal.lut.len() == lut@.len(),
                forall|j: int| 0 <= j < lut@.len() ==> cal.lut[j] == lut@[j] as int,
                forall|j: int| 0 <= j < k - 1 ==> #[trigger] cal.lut[j] > cal.lut[j + 1],
            decreases lut.len() - k,
        {
            if lut[k - 1] <= lut[k] {
                assert(!(cal.lut[k - 1] > cal.lut[(k - 1) + 1]));
                return false;
            }
            k = k + 1;
        }
        true
    }

    /// Maps a raw auxiliary code (100 microvolts per unit) to tenths of a
    /// degree.
    pub fn convert_volt_to_temp(&self, thermistor_voltage: u16) -> (r: i16)
        requires
            self.wf(),
        ensures
            r == self@.tenths_at_code(thermistor_voltage as int),
            10 * self@.min_temp <= r <= 10 * self@.max_temp,
            self@.resistance_at_most(thermistor_voltage as int, self@.last()) ==> r == 10
                * self@.max_temp,
            self@.resistance_at_least(thermistor_voltage as int, self@.lut[0]) ==> r == 10
                * self@.min_temp,
    {
        let ghost cal = self@;
        let len = self.lut_length as usize;
        proof {
            assert(cal.lut.len() == self.lut@.len());
            assert forall|k: int| 0 <= k < self.lut@.len() implies cal.lut[k] == self.lut@[k] as int by {}
            lemma_min_max(cal);
        }
        assert(self.vreg * CODES_PER_MILLIVOLT <= 0xffff * 10);
        let supply: i64 = self.vreg as i64 * CODES_PER_MILLIVOLT as i64;
        let code: i64 = thermistor_voltage as i64;
        let d: i64 = supply - code;
        if d == 0 {
            return self.min_temp * 10;
        }
        if d < 0 {
            return self.max_temp * 10;
        }
        assert(code * self.rntc <= 0xffff * 0xffff_ffff) by (nonlinear_arith)
            requires 0 <= code <= 0xffff, self.rntc <= 0xffff_ffff;
        let n: i64 = code * self.rntc as i64;
        assert(self.lut@[len - 1] as int * d <= 0xffff_ffff * 0xffff * 10) by (nonlinear_arith)
            requires self.lut@[len - 1] <= 0xffff_ffff, 0 < d <= 0xffff * 10;
        if n <= self.lut[len - 1] as i64 * d {
            proof {
                if len > 1 {
                    lemma_lut_decreasing(cal, 0, len - 1);
                    lemma_mul_strict(cal.last(), cal.lut[0], d as int);
                } else {
                    assert(cal.lut.len() == 1);
                    assert((cal.lut.len() - 1) * cal.increment == 0) by (nonlinear_arith)
                        requires cal.lut.len() == 1;
                }
            }
            return self.max_temp * 10;
        }
        assert(self.lut@[0] as int * d <= 0xffff_ffff * 0xffff * 10) by (nonlinear_arith)
            requires self.lut@[0] <= 0xffff_ffff, 0 < d <= 0xffff * 10;
        if n >= self.lut[0] as i64 * d {
            proof {
                if len > 1 {
                    lemma_lut_decreasing(cal, 0, len - 1);
                    lemma_mul_strict(cal.last(), cal.lut[0], d as int);
                }
            }
            return self.min_temp * 10;
        }
        // the first entry at or below the resistance
        let mut i: usize = 1;
        loop
            invariant
                1 <= i < len,
                len == self.lut@.len(),
                0 < d <= 0xffff * 10,
                n < self.lut@[i - 1] as int * d,
                n > self.lut@[len - 1] as int * d,
            ensures
                1 <= i < len,
                self.lut@[i as int] as int * d <= n,
                n < self.lut@[i - 1] as int * d,
            decreases len - i,
        {
            assert(self.lut@[i as int] as int * d <= 0xffff_ffff * 0xffff * 10) by (nonlinear_arith)
                requires self.lut@[i as int] <= 0xffff_ffff, 0 < d <= 0xffff * 10;
            if n >= self.lut[i] as i64 * d {
                break;
            }
            i = i + 1;
        }
        proof {
            assert(cal.brackets(i as int, n as int, d as int));
            lemma_brackets_unique(cal, n as int, d as int, i as int);
        }
        let hi: u64 = self.lut[i - 1] as u64;
        let lo: u64 = self.lut[i] as u64;
        let du: u64 = d as u64;
        let nu: u64 = n as u64;
        proof {
            lemma_lut_decreasing(cal, i - 1, i as int);
            assert(du * (hi - lo) <= 0xffff * 10 * 0xffff_ffff) by (nonlinear_arith)
                requires 0 < du <= 0xffff * 10, hi - lo <= 0xffff_ffff;
            assert(lo * du <= nu < hi * du);
            assert(nu - lo * du < du * (hi - lo)) by (nonlinear_arith)
                requires nu < hi * du;
        }
        let span: u64 = du * (hi - lo);
        assert(10 * self.temp_increment * (span - (nu - lo * du)) <= 10 * 0xffff * 0xffff
            * 10 * 0xffff_ffff) by (nonlinear_arith)
            requires self.temp_increment <= 0xffff, 0 <= span - (nu - lo * du) <= 0xffff * 10
                * 0xffff_ffff;
        // distance above the lower entry, scaled by `d`
        let excess: u64 = nu - lo * du;
        let inc: u128 = self.temp_increment as u128;
        let part: u128 = 10 * inc * (span - excess) as u128;
        // the interpolated tenths above `10 * base`, rounded: in `[0, 10 * inc]`
        let step: u128 = (2 * part + span as u128) / (2 * span as u128);
        proof {
            let base = cal.min_temp + (i - 1) * cal.increment;
            lemma_round_shift(10 * base, part as int, span as int);
            assert(10 * (base * span + cal.increment * (span - excess)) == (10 * base) * span
                + part) by (nonlinear_arith)
                requires part == 10 * cal.increment * (span - excess);
            assert(part <= 10 * cal.increment * span) by (nonlinear_arith)
                requires part == 10 * cal.increment * (span - excess), 0 <= excess,
                    cal.increment > 0;
            lemma_round_bounds(part as int, span as int, 10 * cal.increment);
            assert(i - 1 >= 0);
            assert((i - 1) * cal.increment + cal.increment <= (len - 1) * cal.increment)
                by (nonlinear_arith) requires i <= len - 1, cal.increment > 0;
        }
        let base: i32 = self.min_temp as i32 + (i as i32 - 1) * self.temp_increment as i32;
        (base * 10 + step as i32) as i16
    }
}

/// Thermistor resistances in ohms of the NTC on a cell module, from -20 to
/// 80 degrees in steps of one degree.
pub fn lut_ntu_cell_module_d() -> (r: Vec<u32>)
    ensures
        r@.len() == 101,
        r@[0] == 74890,
        r@[45] == 10000,
        r@[100] == 1624,
{
    vec![
        74890, 71100, 67530, 64160, 60980, 57980, 55150, 52480, 49950, 47570, 45310, 43180, 41160,
        39240, 37430, 35720, 34090, 32550, 31090, 29700, 28380, 27130, 25940, 24810, 23740, 22720,
        21750, 20830, 19950, 19120, 18320, 17570, 16840, 16160, 15500, 14880, 14280, 13710, 13170,
        12650, 12160, 11690, 11240, 10810, 10390, 10000, 9623, 9263, 8918, 8588, 8272, 7970, 7680,
        7402, 7136, 6881, 6636, 6402, 6177, 5961, 5754, 5555, 5365, 5182, 5006, 4837, 4674, 4518,
        4368, 4224, 4085, 3952, 3823, 3700, 3581, 3466, 3356, 3250, 3148, 3050, 2955, 2863, 2775,
        2691, 2609, 2530, 2454, 2380, 2309, 2241, 2174, 2111, 2049, 1989, 1931, 1876, 1822, 1770,
        1720, 1671, 1624,
    ]
}

/// Strict order of any two entries of a well-formed table.
pub proof fn lemma_lut_decreasing(cal: Calibration, i: int, j: int)
    requires
        cal.wf(),
        0 <= i < j < cal.lut.len(),
    ensures
        cal.lut[i] > cal.lut[j],
    decreases j - i,
{
    if j > i + 1 {
        lemma_lut_decreasing(cal, i + 1, j);
    }
    assert(cal.lut[i] > cal.lut[i + 1]);
}

proof fn lemma_mul_strict(a: int, b: int, d: int)
    requires
        a < b,
        d > 0,
    ensures
        a * d < b * d,
{
    assert(a * d < b * d) by (nonlinear_arith)
        requires a < b, d > 0;
}

/// At most one pair of neighbouring entries encloses a resistance.
proof fn lemma_brackets_unique(cal: Calibration, n: int, d: int, i: int)
    requires
        cal.wf(),
        d > 0,
        cal.brackets(i, n, d),
    ensures
        (choose|j: int| cal.brackets(j, n, d)) == i,
{
    let j = choose|j: int| cal.brackets(j, n, d);
    assert(cal.brackets(j, n, d));
    if j < i {
        if j < i - 1 {
            lemma_lut_decreasing(cal, j, i - 1);
        }
        lemma_mul_le(cal.lut[i - 1], cal.lut[j], d);
    } else if j > i {
        if i < j - 1 {
            lemma_lut_decreasing(cal, i, j - 1);
        }
        lemma_mul_le(cal.lut[j - 1], cal.lut[i], d);
    }
}

proof fn lemma_mul_le(a: int, b: int, d: int)
    requires
        a <= b,
        d > 0,
    ensures
        a * d <= b * d,
{
    assert(a * d <= b * d) by (nonlinear_arith)
        requires a <= b, d > 0;
}

/// The range of a well-formed calibration: `min_temp <= max_temp`.
proof fn lemma_min_max(cal: Calibration)
    requires
        cal.wf(),
    ensures
        cal.min_temp <= cal.max_temp,
{
    assert(0 <= (cal.lut.len() - 1) * cal.increment) by (nonlinear_arith)
        requires cal.lut.len() >= 1, cal.increment > 0;
}

/// Some pair of neighbouring entries encloses any resistance strictly between
/// the last and the first entry.
proof fn lemma_brackets_exist(cal: Calibration, n: int, d: int, k: int)
    requires
        cal.wf(),
        d > 0,
        1 <= k < cal.lut.len(),
        n < cal.lut[k - 1] * d,
        n > cal.last() * d,
    ensures
        cal.brackets(choose|j: int| cal.brackets(j, n, d), n, d),
    decreases cal.lut.len() - k,
{
    if n >= cal.lut[k] * d {
        assert(cal.brackets(k, n, d));
    } else {
        lemma_brackets_exist(cal, n, d, k + 1);
    }
}

/// Between entries `i - 1` and `i` the temperature lies between theirs.
proof fn lemma_interpolated_range(cal: Calibration, i: int, n: int, d: int)
    requires
        cal.wf(),
        d > 0,
        cal.brackets(i, n, d),
    ensures
        10 * (cal.min_temp + (i - 1) * cal.increment) <= cal.interpolated_tenths(i, n, d),
        cal.interpolated_tenths(i, n, d) <= 10 * (cal.min_temp + i * cal.increment),
{
    lemma_lut_decreasing(cal, i - 1, i);
    let span = d * (cal.lut[i - 1] - cal.lut[i]);
    let base = cal.min_temp + (i - 1) * cal.increment;
    let part = 10 * cal.increment * (span - (n - cal.lut[i] * d));
    assert(span > 0) by (nonlinear_arith)
        requires d > 0, cal.lut[i - 1] > cal.lut[i], span == d * (cal.lut[i - 1] - cal.lut[i]);
    assert(n - cal.lut[i] * d < span) by (nonlinear_arith)
        requires n < cal.lut[i - 1] * d, span == d * (cal.lut[i - 1] - cal.lut[i]);
    assert(0 <= part <= 10 * cal.increment * span) by (nonlinear_arith)
        requires part == 10 * cal.increment * (span - (n - cal.lut[i] * d)),
            cal.lut[i] * d <= n, n - cal.lut[i] * d < span, cal.increment > 0;
    assert(10 * (base * span + cal.increment * (span - (n - cal.lut[i] * d))) == (10 * base) * span
        + part) by (nonlinear_arith)
        requires part == 10 * cal.increment * (span - (n - cal.lut[i] * d));
    lemma_round_shift(10 * base, part, span);
    lemma_round_bounds(part, span, 10 * cal.increment);
    assert(10 * base + 10 * cal.increment == 10 * (cal.min_temp + i * cal.increment))
        by (nonlinear_arith)
        requires base == cal.min_temp + (i - 1) * cal.increment;
}

/// Every temperature lies in the calibrated range.
pub proof fn lemma_tenths_in_range(cal: Calibration, n: int, d: int)
    requires
        cal.wf(),
        d > 0,
    ensures
        10 * cal.min_temp <= cal.tenths_at_resistance(n, d) <= 10 * cal.max_temp,
{
    lemma_min_max(cal);
    if n > cal.last() * d && n < cal.lut[0] * d {
        lemma_brackets_exist(cal, n, d, 1);
        let i = choose|j: int| cal.brackets(j, n, d);
        lemma_interpolated_range(cal, i, n, d);
        assert(0 <= (i - 1) * cal.increment) by (nonlinear_arith)
            requires i >= 1, cal.increment > 0;
        assert(i * cal.increment <= (cal.lut.len() - 1) * cal.increment) by (nonlinear_arith)
            requires i <= cal.lut.len() - 1, cal.increment > 0;
    }
}

/// On one segment of the table a larger resistance never reads warmer.
proof fn lemma_segment_monotone(cal: Calibration, i: int, n1: int, d1: int, n2: int, d2: int)
    requires
        cal.wf(),
        d1 > 0,
        d2 > 0,
        n1 * d2 >= n2 * d1,
        cal.brackets(i, n1, d1),
        cal.brackets(i, n2, d2),
    ensures
        cal.interpolated_tenths(i, n1, d1) <= cal.interpolated_tenths(i, n2, d2),
{
    lemma_lut_decreasing(cal, i - 1, i);
    let lo = cal.lut[i];
    let delta = cal.lut[i - 1] - lo;
    let base = cal.min_temp + (i - 1) * cal.increment;
    let inc = cal.increment;
    let s1 = d1 * delta;
    let s2 = d2 * delta;
    let a1 = 10 * (base * s1 + inc * (s1 - (n1 - lo * d1)));
    let a2 = 10 * (base * s2 + inc * (s2 - (n2 - lo * d2)));
    assert(s1 > 0 && s2 > 0) by (nonlinear_arith)
        requires d1 > 0, d2 > 0, delta > 0, s1 == d1 * delta, s2 == d2 * delta;
    let c = 10 * (base + inc);
    let e1 = n1 - lo * d1;
    let e2 = n2 - lo * d2;
    assert(a1 == c * s1 - 10 * inc * e1) by (nonlinear_arith)
        requires a1 == 10 * (base * s1 + inc * (s1 - e1)), c == 10 * (base + inc);
    assert(a2 == c * s2 - 10 * inc * e2) by (nonlinear_arith)
        requires a2 == 10 * (base * s2 + inc * (s2 - e2)), c == 10 * (base + inc);
    assert(a1 * s2 - a2 * s1 == 10 * inc * (e2 * s1 - e1 * s2)) by (nonlinear_arith)
        requires a1 == c * s1 - 10 * inc * e1, a2 == c * s2 - 10 * inc * e2;
    let m = delta * (lo * (d1 * d2));
    assert(e2 * s1 == delta * (n2 * d1) - m) by (nonlinear_arith)
        requires s1 == d1 * delta, e2 == n2 - lo * d2, m == delta * (lo * (d1 * d2));
    assert(e1 * s2 == delta * (n1 * d2) - m) by (nonlinear_arith)
        requires s2 == d2 * delta, e1 == n1 - lo * d1, m == delta * (lo * (d1 * d2));
    assert(delta * (n2 * d1) <= delta * (n1 * d2)) by (nonlinear_arith)
        requires delta > 0, n1 * d2 >= n2 * d1;
    let g = e2 * s1 - e1 * s2;
    assert(g <= 0);
    assert(inc * g <= 0) by (nonlinear_arith)
        requires inc > 0, g <= 0;
    assert(a1 * s2 <= a2 * s1) by (nonlinear_arith)
        requires a1 * s2 - a2 * s1 == 10 * inc * (e2 * s1 - e1 * s2), g == e2 * s1 - e1 * s2,
            inc * g <= 0;
    lemma_round_monotone(a1, s1, a2, s2);
}

/// A larger finite resistance never reads warmer: for `n1 / d1 >= n2 / d2`
/// the first temperature is at most the second.
pub proof fn lemma_monotone(cal: Calibration, n1: int, d1: int, n2: int, d2: int)
    requires
        cal.wf(),
        d1 > 0,
        d2 > 0,
        n1 * d2 >= n2 * d1,
    ensures
        cal.tenths_at_resistance(n1, d1) <= cal.tenths_at_resistance(n2, d2),
{
    lemma_tenths_in_range(cal, n1, d1);
    lemma_tenths_in_range(cal, n2, d2);
    let last = cal.last();
    let first = cal.lut[0];
    if n2 <= last * d2 {
    } else {
        assert(n1 > last * d1) by (nonlinear_arith)
            requires n1 * d2 >= n2 * d1, n2 > last * d2, d1 > 0, d2 > 0;
        if n1 < first * d1 {
        assert(n2 < first * d2) by (nonlinear_arith)
            requires n1 * d2 >= n2 * d1, n1 < first * d1, d1 > 0, d2 > 0;
        lemma_brackets_exist(cal, n1, d1, 1);
        lemma_brackets_exist(cal, n2, d2, 1);
        let i1 = choose|j: int| cal.brackets(j, n1, d1);
        let i2 = choose|j: int| cal.brackets(j, n2, d2);
        if i1 > i2 {
            if i2 < i1 - 1 {
                lemma_lut_decreasing(cal, i2, i1 - 1);
            }
            let hi = cal.lut[i1 - 1];
            let lo = cal.lut[i2];
            assert(false) by (nonlinear_arith)
                requires
                    hi <= lo,
                    n1 < hi * d1,
                    lo * d2 <= n2,
                    n1 * d2 >= n2 * d1,
                    d1 > 0,
                    d2 > 0,
            ;
        } else if i1 < i2 {
            lemma_interpolated_range(cal, i1, n1, d1);
            lemma_interpolated_range(cal, i2, n2, d2);
            assert(i1 * cal.increment <= (i2 - 1) * cal.increment) by (nonlinear_arith)
                requires i1 <= i2 - 1, cal.increment > 0;
        } else {
            lemma_segment_monotone(cal, i1, n1, d1, n2, d2);
        }
        }
    }
}

/// Of two codes below the supply, the one with the larger derived
/// resistance never reads warmer.
pub proof fn lemma_monotone_codes(cal: Calibration, v1: int, v2: int)
    requires
        cal.wf(),
        0 <= v1 < cal.supply_codes(),
        0 <= v2 < cal.supply_codes(),
        (v1 * cal.fixed_ohms) * (cal.supply_codes() - v2) >= (v2 * cal.fixed_ohms) * (
        cal.supply_codes() - v1),
    ensures
        cal.tenths_at_code(v1) <= cal.tenths_at_code(v2),
{
    lemma_monotone(
        cal,
        v1 * cal.fixed_ohms,
        cal.supply_codes() - v1,
        v2 * cal.fixed_ohms,
        cal.supply_codes() - v2,
    );
}

} // verus!
