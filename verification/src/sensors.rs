//! Reading the machine's sensors out of text.
//!
//! The CPU package temperature is found by walking the hwmon drivers in a fixed
//! vendor order and, within a driver, preferring a sensor labelled as the
//! package or Tctl, falling back to `temp1_input`. GPU load comes from a DRM
//! card's kernel counter, or failing that from the first line of `nvidia-smi`
//! output. The filesystem and the process are the application's business;
//! what to make of what they return is decided here.

use vstd::prelude::*;

use crate::text::{
    lemma_span_until_bounds, lemma_text_lt_irreflexive, lemma_text_lt_total,
    lemma_text_lt_transitive, number_prefix, number_prefix_of, position_of, same_text, span_until,
    text_before, text_lt, trim, trimmed,
};

verus! {

/// hwmon drivers that report a CPU package temperature, in the order they are
/// tried: `k10temp` and `zenpower` on AMD, `coretemp` on Intel.
pub const CPU_TEMP_DRIVERS: [&'static str; 3] = ["k10temp", "zenpower", "coretemp"];

/// How many `temp<N>_label` / `temp<N>_input` pairs of a driver are examined,
/// starting at `N = 1`.
pub const SENSOR_SLOTS: usize = 8;

/// The first line of `t`, as `str::lines` yields it: up to the first line feed,
/// with a carriage return before it dropped. Empty text has no line.
pub open spec fn first_line(t: Seq<char>) -> Option<Seq<char>> {
    if t.len() == 0 {
        None
    } else {
        let k = span_until(t, '\n');
        if k < t.len() {
            let l = t.take(k as int);
            if l.len() > 0 && l.last() == '\r' {
                Some(l.drop_last())
            } else {
                Some(l)
            }
        } else {
            Some(t)
        }
    }
}

/// The first two comma-separated fields of `line`; none if it has no comma.
pub open spec fn first_two_fields(line: Seq<char>) -> Option<(Seq<char>, Seq<char>)> {
    let k = span_until(line, ',');
    if k < line.len() {
        let rest = line.skip(k + 1int);
        Some((line.take(k as int), rest.take(span_until(rest, ',') as int)))
    } else {
        None
    }
}

/// The utilisation and temperature fields of `nvidia-smi` CSV output: the first
/// two fields of the first line. A multi-GPU machine prints one row per card.
pub open spec fn nvidia_fields_of(text: Seq<char>) -> Option<(Seq<char>, Seq<char>)> {
    match first_line(text) {
        Some(line) => first_two_fields(line),
        None => None,
    }
}

/// The first line is the text up to its first line feed, less a carriage
/// return just before it, and the whole text when there is no line feed; it
/// holds no line feed itself.
pub proof fn lemma_first_line_meaning(t: Seq<char>)
    ensures
        t.len() == 0 ==> first_line(t) is None,
        t.len() > 0 ==> (first_line(t) matches Some(l) && {
            &&& l == t.take(l.len() as int)
            &&& forall|i: int| 0 <= i < l.len() ==> l[i] != '\n'
            &&& l.len() == t.len() || t[l.len() as int] == '\n' || (t[l.len() as int] == '\r'
                && l.len() + 1 < t.len() && t[l.len() + 1int] == '\n')
            &&& (forall|i: int| 0 <= i < t.len() ==> t[i] != '\n') ==> l == t
        }),
{
    lemma_span_until_bounds(t, '\n');
    if t.len() > 0 {
        let k = span_until(t, '\n');
        if k < t.len() {
            let l = t.take(k as int);
            if l.len() > 0 && l.last() == '\r' {
                assert(l.drop_last() =~= t.take(k - 1));
            }
        } else {
            assert(t.take(t.len() as int) =~= t);
        }
    }
}

/// The two fields are the text of the line before its first comma, and the
/// text between its first and second comma (or the end); neither holds a
/// comma, and a line without a comma has no fields.
pub proof fn lemma_first_two_fields_meaning(line: Seq<char>)
    ensures
        (forall|i: int| 0 <= i < line.len() ==> line[i] != ',') ==> first_two_fields(line) is None,
        first_two_fields(line) matches Some((a, b)) ==> {
            &&& a.len() + 1 + b.len() <= line.len()
            &&& a == line.take(a.len() as int)
            &&& line[a.len() as int] == ','
            &&& b == line.subrange(a.len() + 1int, a.len() + 1int + b.len())
            &&& a.len() + 1 + b.len() == line.len() || line[a.len() + 1int + b.len()] == ','
            &&& forall|i: int| 0 <= i < a.len() ==> a[i] != ','
            &&& forall|i: int| 0 <= i < b.len() ==> b[i] != ','
        },
{
    lemma_span_until_bounds(line, ',');
    let k = span_until(line, ',') as int;
    if k < line.len() {
        let rest = line.skip(k + 1);
        lemma_span_until_bounds(rest, ',');
        let m = span_until(rest, ',') as int;
        assert(rest.take(m) =~= line.subrange(k + 1, k + 1 + m));
        if k + 1 + m < line.len() {
            assert(line[k + 1 + m] == rest[m]);
        }
        assert forall|i: int| 0 <= i < m implies rest.take(m)[i] != ',' by {
            assert(rest.take(m)[i] == rest[i]);
        }
    } else {
        if exists|i: int| 0 <= i < line.len() && line[i] == ',' {
            let i = choose|i: int| 0 <= i < line.len() && line[i] == ',';
            assert(line.contains(','));
        }
    }
}

/// The two fields as numbers would be read from them: their numeric prefixes.
pub open spec fn nvidia_numbers_of(text: Seq<char>) -> Option<(Seq<char>, Seq<char>)> {
    match nvidia_fields_of(text) {
        Some((a, b)) => Some((number_prefix(a), number_prefix(b))),
        None => None,
    }
}

/// The text of the utilisation and temperature numbers in `nvidia-smi` output,
/// each still to be parsed; none if there is no line with two fields.
pub fn nvidia_numbers(text: &str) -> (r: Option<(&str, &str)>)
    ensures
        match r {
            Some((a, b)) => nvidia_numbers_of(text@) == Some((a@, b@)),
            None => nvidia_numbers_of(text@) is None,
        },
{
    let n = text.unicode_len();
    if n == 0 {
        return None;
    }
    let k = position_of(text, 0, '\n');
    proof {
        assert(text@.subrange(0, n as int) =~= text@);
        lemma_span_until_bounds(text@, '\n');
    }
    let mut e = k;
    if k < n && k > 0 && text.get_char(k - 1) == '\r' {
        e = k - 1;
    }
    let line = text.substring_char(0, e);
    proof {
        let l = text@.take(k as int);
        if k < n && k > 0 && text@[k - 1] == '\r' {
            assert(line@ =~= l.drop_last());
        } else if k < n {
            assert(line@ =~= l);
        } else {
            assert(line@ =~= text@);
        }
        assert(first_line(text@) == Some(line@));
    }
    let m = line.unicode_len();
    let c = position_of(line, 0, ',');
    proof {
        assert(line@.subrange(0, m as int) =~= line@);
    }
    if c >= m {
        return None;
    }
    let d = position_of(line, c + 1, ',');
    let first = line.substring_char(0, c);
    let second = line.substring_char(c + 1, d);
    proof {
        let rest = line@.skip(c + 1);
        assert(rest =~= line@.subrange(c + 1, m as int));
        assert(second@ =~= rest.take(span_until(rest, ',') as int));
        assert(first@ =~= line@.take(c as int));
    }
    Some((number_prefix_of(first), number_prefix_of(second)))
}

/// A DRM directory name that is a card rather than a connector: `card0`, not
/// `card0-eDP-1`.
pub open spec fn is_drm_card_name(name: Seq<char>) -> bool {
    name.len() >= 4 && name.take(4) == "card"@ && !name.contains('-')
}

/// A card's name is `card` followed by anything without a hyphen; a
/// connector such as `card0-eDP-1` has one, and `renderD128` does not start
/// with `card`.
pub proof fn lemma_drm_card_name_meaning(name: Seq<char>)
    ensures
        is_drm_card_name(name) <==> {
            &&& name.len() >= 4
            &&& name[0] == 'c' && name[1] == 'a' && name[2] == 'r' && name[3] == 'd'
            &&& forall|i: int| 0 <= i < name.len() ==> name[i] != '-'
        },
{
    reveal_strlit("card");
    if name.len() >= 4 {
        if name[0] == 'c' && name[1] == 'a' && name[2] == 'r' && name[3] == 'd' {
            assert(name.take(4) =~= "card"@);
        }
        if name.take(4) == "card"@ {
            assert(name[0] == name.take(4)[0]);
            assert(name[1] == name.take(4)[1]);
            assert(name[2] == name.take(4)[2]);
            assert(name[3] == name.take(4)[3]);
        }
    }
}

/// The labels that name the CPU package are `Tctl`, `Package id 0` and
/// `Tdie`, with any surrounding white space.
pub proof fn lemma_package_label_meaning(label: Seq<char>)
    ensures
        is_package_label_text(label) <==> {
            ||| trimmed(label) == seq!['T', 'c', 't', 'l']
            ||| trimmed(label) == seq!['P', 'a', 'c', 'k', 'a', 'g', 'e', ' ', 'i', 'd', ' ', '0']
            ||| trimmed(label) == seq!['T', 'd', 'i', 'e']
        },
{
    reveal_strlit("Tctl");
    reveal_strlit("Package id 0");
    reveal_strlit("Tdie");
    assert("Tctl"@ =~= seq!['T', 'c', 't', 'l']);
    assert("Package id 0"@ =~= seq!['P', 'a', 'c', 'k', 'a', 'g', 'e', ' ', 'i', 'd', ' ', '0']);
    assert("Tdie"@ =~= seq!['T', 'd', 'i', 'e']);
}

/// Whether the DRM directory `name` is a card.
pub fn is_drm_card(name: &str) -> (b: bool)
    ensures
        b == is_drm_card_name(name@),
{
    let n = name.unicode_len();
    if n < 4 {
        return false;
    }
    if !same_text(name.substring_char(0, 4), "card") {
        return false;
    }
    let k = position_of(name, 0, '-');
    proof {
        assert(name@.subrange(0, n as int) =~= name@);
        lemma_span_until_bounds(name@, '-');
        assert(name@.subrange(0, 4) =~= name@.take(4));
    }
    k == n
}

/// What was found for one entry of the DRM class directory.
pub struct CardProbe {
    /// The entry's name, such as `card0` or `card0-eDP-1`.
    pub name: String,
    /// Whether `<entry>/device/gpu_busy_percent` exists.
    pub has_counter: bool,
}

/// A card that exposes a utilisation counter.
pub open spec fn card_eligible(c: CardProbe) -> bool {
    is_drm_card_name(c.name@) && c.has_counter
}

/// Entry `i` is the card to read: eligible, and first in name order among the
/// eligible entries (the earliest of them, should two share a name).
pub open spec fn is_chosen_card(cards: Seq<CardProbe>, i: int) -> bool {
    &&& 0 <= i < cards.len()
    &&& card_eligible(cards[i])
    &&& forall|j: int|
        0 <= j < cards.len() && card_eligible(#[trigger] cards[j]) ==> {
            &&& j < i ==> text_lt(cards[i].name@, cards[j].name@)
            &&& j > i ==> !text_lt(cards[j].name@, cards[i].name@)
        }
}

/// At most one entry is the chosen card.
pub proof fn lemma_chosen_card_unique(cards: Seq<CardProbe>, i: int, k: int)
    requires
        is_chosen_card(cards, i),
        is_chosen_card(cards, k),
    ensures
        i == k,
{
    if i < k {
        assert(card_eligible(cards[k]) && card_eligible(cards[i]));
        assert(text_lt(cards[k].name@, cards[i].name@));
    } else if k < i {
        assert(card_eligible(cards[k]) && card_eligible(cards[i]));
        assert(text_lt(cards[i].name@, cards[k].name@));
    }
}

/// The DRM card whose utilisation counter is read: of the cards (not
/// connectors) that expose `gpu_busy_percent`, the first in name order.
pub fn choose_gpu_card(cards: &Vec<CardProbe>) -> (r: Option<usize>)
    ensures
        match r {
            Some(i) => is_chosen_card(cards@, i as int),
            None => forall|j: int| 0 <= j < cards@.len() ==> !card_eligible(#[trigger] cards@[j]),
        },
{
    let n = cards.len();
    let mut best: Option<usize> = None;
    let mut k: usize = 0;
    while k < n
        invariant
            n == cards@.len(),
            k <= n,
            match best {
                None => forall|j: int| 0 <= j < k ==> !card_eligible(#[trigger] cards@[j]),
                Some(b) => {
                    &&& b < k
                    &&& card_eligible(cards@[b as int])
                    &&& forall|j: int|
                        0 <= j < k && card_eligible(#[trigger] cards@[j]) ==> {
                            &&& j < b ==> text_lt(cards@[b as int].name@, cards@[j].name@)
                            &&& j > b ==> !text_lt(cards@[j].name@, cards@[b as int].name@)
                        }
                },
            },
        decreases n - k,
    {
        let c = &cards[k];
        if c.has_counter && is_drm_card(c.name.as_str()) {
            match best {
                None => {
                    best = Some(k);
                },
                Some(b) => {
                    if text_before(c.name.as_str(), cards[b].name.as_str()) {
                        proof {
                            let nk = cards@[k as int].name@;
                            let nb = cards@[b as int].name@;
                            assert forall|j: int|
                                0 <= j < k && card_eligible(#[trigger] cards@[j]) implies text_lt(
                                nk,
                                cards@[j].name@,
                            ) by {
                                let nj = cards@[j].name@;
                                if j < b {
                                    lemma_text_lt_transitive(nk, nb, nj);
                                } else if j > b {
                                    if nj != nb {
                                        lemma_text_lt_total(nj, nb);
                                        lemma_text_lt_transitive(nk, nb, nj);
                                    }
                                }
                            }
                            lemma_text_lt_irreflexive(nk);
                        }
                        best = Some(k);
                    }
                },
            }
        }
        k = k + 1;
    }
    best
}

/// A hwmon sensor label that names the CPU package.
pub open spec fn is_package_label_text(label: Seq<char>) -> bool {
    let t = trimmed(label);
    t == "Tctl"@ || t == "Package id 0"@ || t == "Tdie"@
}

/// Whether a `temp<N>_label` file's contents name the CPU package.
pub fn is_package_label(label: &str) -> (b: bool)
    ensures
        b == is_package_label_text(label@),
{
    let t = trim(label);
    same_text(t, "Tctl") || same_text(t, "Package id 0") || same_text(t, "Tdie")
}

/// Whether a hwmon `name` file's contents are the driver name `driver`.
pub fn is_hwmon_named(contents: &str, driver: &str) -> (b: bool)
    ensures
        b == (trimmed(contents@) == driver@),
{
    same_text(trim(contents), driver)
}

/// What was found for one `temp<N>` sensor of a driver.
pub struct SensorProbe {
    /// Contents of `temp<N>_label`, if it could be read.
    pub label: Option<String>,
    /// Whether `temp<N>_input` exists.
    pub input_exists: bool,
}

/// A sensor labelled as the package whose input exists.
pub open spec fn sensor_matches(p: SensorProbe) -> bool {
    &&& p.input_exists
    &&& p.label matches Some(l) && is_package_label_text(l@)
}

/// The first matching sensor at or after position `k`.
pub open spec fn first_match_from(s: Seq<SensorProbe>, k: int) -> Option<int>
    decreases s.len() - k,
{
    if k < 0 || k >= s.len() {
        None
    } else if sensor_matches(s[k]) {
        Some(k)
    } else {
        first_match_from(s, k + 1)
    }
}

/// The sensor chosen within one driver, whose sensors are `temp1`, `temp2`, ...
/// in order: the first labelled as the package, else `temp1` if its input
/// exists.
pub open spec fn driver_sensor(s: Seq<SensorProbe>) -> Option<int> {
    match first_match_from(s, 0) {
        Some(k) => Some(k),
        None => if s.len() > 0 && s[0].input_exists {
            Some(0)
        } else {
            None
        },
    }
}

/// The (driver, sensor) chosen from driver position `d` on, where a driver
/// without a hwmon directory is `None`.
pub open spec fn cpu_sensor_from(probes: Seq<Option<Vec<SensorProbe>>>, d: int) -> Option<
    (int, int),
>
    decreases probes.len() - d,
{
    if d < 0 || d >= probes.len() {
        None
    } else {
        match probes[d] {
            Some(v) => match driver_sensor(v@) {
                Some(k) => Some((d, k)),
                None => cpu_sensor_from(probes, d + 1),
            },
            None => cpu_sensor_from(probes, d + 1),
        }
    }
}

/// The sensor at `j` is labelled as the package and its input exists.
pub open spec fn is_package_sensor_at(s: Seq<SensorProbe>, j: int) -> bool {
    &&& s[j].input_exists
    &&& match s[j].label {
        Some(l) => is_package_label_text(l@),
        None => false,
    }
}

proof fn lemma_first_match_from(s: Seq<SensorProbe>, k: int)
    requires
        0 <= k,
    ensures
        match first_match_from(s, k) {
            Some(m) => k <= m < s.len() && is_package_sensor_at(s, m) && forall|j: int|
                k <= j < m ==> !is_package_sensor_at(s, j),
            None => forall|j: int| k <= j < s.len() ==> !is_package_sensor_at(s, j),
        },
    decreases s.len() - k,
{
    if k < s.len() && !sensor_matches(s[k]) {
        lemma_first_match_from(s, k + 1);
    }
}

/// Within one driver the sensor read is the lowest-numbered one labelled as
/// the package (`Tctl`, `Package id 0` or `Tdie`) whose input exists; only when
/// no sensor is so labelled does `temp1` stand in, and only if its input
/// exists. Whatever is chosen has an input.
pub proof fn lemma_driver_sensor_is_first_package_sensor(s: Seq<SensorProbe>)
    ensures
        forall|k: int| #[trigger] driver_sensor(s) == Some(k) ==> 0 <= k < s.len() && s[k].input_exists,
        (exists|j: int| 0 <= j < s.len() && is_package_sensor_at(s, j)) ==> exists|k: int|
            #[trigger] driver_sensor(s) == Some(k) && is_package_sensor_at(s, k) && forall|j: int|
                0 <= j < k ==> !is_package_sensor_at(s, j),
        (forall|j: int| 0 <= j < s.len() ==> !is_package_sensor_at(s, j)) ==> driver_sensor(s) == (
        if s.len() > 0 && s[0].input_exists {
            Some(0int)
        } else {
            None
        }),
{
    lemma_first_match_from(s, 0);
    if exists|j: int| 0 <= j < s.len() && is_package_sensor_at(s, j) {
        let j = choose|j: int| 0 <= j < s.len() && is_package_sensor_at(s, j);
        match first_match_from(s, 0) {
            Some(m) => {
                assert(driver_sensor(s) == Some(m));
            },
            None => {
                assert(!is_package_sensor_at(s, j));
            },
        }
    }
}

/// Drivers are tried in order: the answer names the first driver that has a
/// hwmon directory and a sensor to read, and that driver's own choice.
pub proof fn lemma_cpu_sensor_first_driver(probes: Seq<Option<Vec<SensorProbe>>>, d: int)
    requires
        0 <= d,
    ensures
        match cpu_sensor_from(probes, d) {
            Some((e, k)) => {
                &&& d <= e < probes.len()
                &&& probes[e] matches Some(v) && driver_sensor(v@) == Some(k)
                &&& forall|f: int|
                    d <= f < e ==> (#[trigger] probes[f] matches Some(v) ==> driver_sensor(v@) is None)
            },
            None => forall|f: int|
                d <= f < probes.len() ==> (#[trigger] probes[f] matches Some(v) ==> driver_sensor(
                    v@,
                ) is None),
        },
    decreases probes.len() - d,
{
    if d < probes.len() {
        lemma_cpu_sensor_first_driver(probes, d + 1);
    }
}

/// Whether the probe is a sensor labelled as the package with an input.
pub fn probe_matches(p: &SensorProbe) -> (b: bool)
    ensures
        b == sensor_matches(*p),
{
    if !p.input_exists {
        return false;
    }
    match &p.label {
        Some(l) => is_package_label(l.as_str()),
        None => false,
    }
}

/// The sensor to read within one driver; see `driver_sensor`.
pub fn choose_driver_sensor(sensors: &Vec<SensorProbe>) -> (r: Option<usize>)
    ensures
        match r {
            Some(k) => driver_sensor(sensors@) == Some(k as int),
            None => driver_sensor(sensors@) is None,
        },
{
    let n = sensors.len();
    let mut k: usize = 0;
    while k < n
        invariant
            n == sensors@.len(),
            k <= n,
            first_match_from(sensors@, 0) == first_match_from(sensors@, k as int),
        decreases n - k,
    {
        if probe_matches(&sensors[k]) {
            return Some(k);
        }
        k = k + 1;
    }
    if n > 0 && sensors[0].input_exists {
        Some(0)
    } else {
        None
    }
}

/// Which driver's sensor carries the CPU package temperature. `probes[d]` is
/// what was found for `CPU_TEMP_DRIVERS[d]`: none if the system has no hwmon
/// directory of that name, else its sensors `temp1` to `temp8` in order. The
/// answer is the driver's position and the sensor's position (0 for `temp1`).
pub fn choose_cpu_sensor(probes: &Vec<Option<Vec<SensorProbe>>>) -> (r: Option<(usize, usize)>)
    ensures
        match r {
            Some((d, k)) => cpu_sensor_from(probes@, 0) == Some((d as int, k as int)),
            None => cpu_sensor_from(probes@, 0) is None,
        },
{
    let n = probes.len();
    let mut d: usize = 0;
    while d < n
        invariant
            n == probes@.len(),
            d <= n,
            cpu_sensor_from(probes@, 0) == cpu_sensor_from(probes@, d as int),
        decreases n - d,
    {
        match &probes[d] {
            Some(sensors) => {
                if let Some(k) = choose_driver_sensor(sensors) {
                    return Some((d, k));
                }
            },
            None => {},
        }
        d = d + 1;
    }
    None
}

} // verus!
