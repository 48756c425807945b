//! Correlation of displays with the compositor's outputs.
//!
//! A display is matched to an output by its name, in five passes of falling
//! reliability; the first pass that finds an enabled output wins, and within
//! a pass the first such output in list order:
//! 1. manufacturer, model and EDID serial;
//! 2. manufacturer and model;
//! 3. model alone (ignoring ASCII case, or ignoring spaces too);
//! 4. manufacturer, and the output's model contains ours (any case);
//! 5. the output's model contains ours (any case).

use vstd::prelude::*;
use vstd::string::StringExecFns;

use crate::monitor::MonitorInfo;
use crate::text::{
    contains_text, str_eq, eq_ignore_ascii_case, join_words, lower_of, lowercase, spec_contains,
    spec_eq_ignore_ascii_case, spec_join, spec_words, strip_spaces, without_spaces, words,
};

verus! {

/// Resolution and refresh rate of a display mode.
#[derive(Debug, Clone, Copy, PartialEq, Eq, Structural)]
pub struct DisplayMode {
    pub width: u32,
    pub height: u32,
    /// Refresh rate in millihertz (60000 is 60 Hz).
    pub refresh_rate: u32,
}

/// One output of the compositor.
#[derive(Debug)]
pub struct OutputInfo {
    /// Connector name (`DP-2`, `HDMI-1`, ...).
    pub connector_name: String,
    /// Manufacturer from the EDID.
    pub make: Option<String>,
    /// Model from the EDID.
    pub model: String,
    /// EDID serial number, if known.
    pub serial_number: Option<String>,
    /// Whether the output is enabled.
    pub enabled: bool,
    /// Physical size in millimetres.
    pub physical_size: (u32, u32),
    /// Position in the virtual desktop.
    pub position: (i32, i32),
    /// Scale factor in hundredths (150 stands for 1.5).
    pub scale_hundredths: u32,
    /// Transform (`normal`, `90`, `flipped-180`, ...).
    pub transform: String,
    /// Current mode, if known.
    pub current_mode: Option<DisplayMode>,
}

fn copy_text(s: &Option<String>) -> (r: Option<String>)
    ensures
        r == *s,
{
    match s {
        Some(t) => Some(t.clone()),
        None => None,
    }
}

impl OutputInfo {
    /// A copy of this output.
    pub fn duplicate(&self) -> (r: OutputInfo)
        ensures
            r == *self,
    {
        OutputInfo {
            connector_name: self.connector_name.clone(),
            make: copy_text(&self.make),
            model: self.model.clone(),
            serial_number: copy_text(&self.serial_number),
            enabled: self.enabled,
            physical_size: self.physical_size,
            position: self.position,
            scale_hundredths: self.scale_hundredths,
            transform: self.transform.clone(),
            current_mode: self.current_mode,
        }
    }
}

/// Manufacturer names recognised as the first word of a display name.
pub open spec fn is_known_maker(w: Seq<char>) -> bool {
    spec_eq_ignore_ascii_case(w, "Apple"@) || spec_eq_ignore_ascii_case(w, "Dell"@)
        || spec_eq_ignore_ascii_case(w, "LG"@) || spec_eq_ignore_ascii_case(w, "Samsung"@)
}

/// Words dropped from a display name to get its model.
pub open spec fn is_company_word(w: Seq<char>) -> bool {
    is_known_maker(w) || spec_eq_ignore_ascii_case(w, "Inc."@) || spec_eq_ignore_ascii_case(
        w,
        "Computer"@,
    ) || spec_eq_ignore_ascii_case(w, "Corp"@) || spec_eq_ignore_ascii_case(w, "Ltd"@)
}

/// The words of a name that are not company words.
pub open spec fn spec_model_words(ws: Seq<Seq<char>>) -> Seq<Seq<char>>
    decreases ws.len(),
{
    if ws.len() == 0 {
        ws
    } else if is_company_word(ws.last()) {
        spec_model_words(ws.drop_last())
    } else {
        spec_model_words(ws.drop_last()).push(ws.last())
    }
}

/// The model part of a display name.
pub open spec fn spec_clean_model(name: Seq<char>) -> Seq<char> {
    spec_join(spec_model_words(spec_words(name)))
}

/// The manufacturer of a display name: its first word, when that is a known
/// manufacturer.
pub open spec fn spec_maker(name: Seq<char>) -> Option<Seq<char>> {
    let ws = spec_words(name);
    if ws.len() > 0 && is_known_maker(ws[0]) {
        Some(ws[0])
    } else {
        None
    }
}

/// Whether an output's manufacturer contains `mfr` (any case).
pub open spec fn make_matches(o: OutputInfo, mfr: Seq<char>) -> bool {
    match o.make {
        Some(m) => spec_contains(lower_of(m@), lower_of(mfr)),
        None => false,
    }
}

/// Whether an output matches in pass `pass` (1 to 5).
pub open spec fn pass_matches(
    pass: int,
    o: OutputInfo,
    clean: Seq<char>,
    mfr: Option<Seq<char>>,
    serial: Option<Seq<char>>,
) -> bool {
    o.enabled && if pass == 1 {
        &&& mfr is Some
        &&& serial is Some
        &&& make_matches(o, mfr.unwrap())
        &&& spec_eq_ignore_ascii_case(o.model@, clean)
        &&& o.serial_number matches Some(s) && s@ == serial.unwrap()
    } else if pass == 2 {
        mfr is Some && make_matches(o, mfr.unwrap()) && spec_eq_ignore_ascii_case(o.model@, clean)
    } else if pass == 3 {
        spec_eq_ignore_ascii_case(o.model@, clean) || spec_eq_ignore_ascii_case(
            strip_spaces(o.model@),
            strip_spaces(clean),
        )
    } else if pass == 4 {
        mfr is Some && make_matches(o, mfr.unwrap()) && spec_contains(lower_of(o.model@), lower_of(clean))
    } else {
        spec_contains(lower_of(o.model@), lower_of(clean))
    }
}

/// Some output matches in pass `pass`.
pub open spec fn has_match(
    outs: Seq<OutputInfo>,
    pass: int,
    clean: Seq<char>,
    mfr: Option<Seq<char>>,
    serial: Option<Seq<char>>,
) -> bool {
    exists|i: int| 0 <= i < outs.len() && pass_matches(pass, #[trigger] outs[i], clean, mfr, serial)
}

/// Output `i` is the first to match in pass `pass`.
pub open spec fn is_first_match(
    outs: Seq<OutputInfo>,
    pass: int,
    i: int,
    clean: Seq<char>,
    mfr: Option<Seq<char>>,
    serial: Option<Seq<char>>,
) -> bool {
    &&& 0 <= i < outs.len()
    &&& pass_matches(pass, outs[i], clean, mfr, serial)
    &&& forall|j: int| 0 <= j < i ==> !pass_matches(pass, #[trigger] outs[j], clean, mfr, serial)
}

/// The first pass that finds an output, or 0 when none does.
pub open spec fn best_pass(
    outs: Seq<OutputInfo>,
    clean: Seq<char>,
    mfr: Option<Seq<char>>,
    serial: Option<Seq<char>>,
) -> int {
    if has_match(outs, 1, clean, mfr, serial) {
        1
    } else if has_match(outs, 2, clean, mfr, serial) {
        2
    } else if has_match(outs, 3, clean, mfr, serial) {
        3
    } else if has_match(outs, 4, clean, mfr, serial) {
        4
    } else if has_match(outs, 5, clean, mfr, serial) {
        5
    } else {
        0
    }
}

/// The output that a display named `name` (with EDID serial `serial`, if
/// known) is matched to.
pub open spec fn spec_match(outs: Seq<OutputInfo>, name: Seq<char>, serial: Option<Seq<char>>) -> Option<
    OutputInfo,
> {
    let clean = spec_clean_model(name);
    let mfr = spec_maker(name);
    let p = best_pass(outs, clean, mfr, serial);
    if p == 0 {
        None
    } else {
        Some(outs[choose|i: int| is_first_match(outs, p, i, clean, mfr, serial)])
    }
}

/// The text of an optional string.
pub open spec fn opt_text(s: Option<String>) -> Option<Seq<char>> {
    match s {
        Some(t) => Some(t@),
        None => None,
    }
}

fn is_known_maker_word(w: &str) -> (r: bool)
    ensures
        r == is_known_maker(w@),
{
    eq_ignore_ascii_case(w, "Apple") || eq_ignore_ascii_case(w, "Dell") || eq_ignore_ascii_case(w, "LG")
        || eq_ignore_ascii_case(w, "Samsung")
}

fn is_company(w: &str) -> (r: bool)
    ensures
        r == is_company_word(w@),
{
    is_known_maker_word(w) || eq_ignore_ascii_case(w, "Inc.") || eq_ignore_ascii_case(w, "Computer")
        || eq_ignore_ascii_case(w, "Corp") || eq_ignore_ascii_case(w, "Ltd")
}

/// The model part of a display name: its words without company words,
/// joined by single spaces.
pub fn clean_model(name: &str) -> (r: String)
    ensures
        r@ == spec_clean_model(name@),
{
    let ws = words(name);
    let ghost wv = ws@.map_values(|w: String| w@);
    let mut kept: Vec<String> = Vec::new();
    let mut i: usize = 0;
    while i < ws.len()
        invariant
            i <= ws@.len(),
            wv == ws@.map_values(|w: String| w@),
            kept@.map_values(|w: String| w@) == spec_model_words(wv.take(i as int)),
        decreases ws.len() - i,
    {
        proof {
            assert(wv.take(i as int + 1).drop_last() =~= wv.take(i as int));
            assert(wv.take(i as int + 1).last() == ws@[i as int]@);
        }
        if !is_company(ws[i].as_str()) {
            let ghost before = kept@;
            kept.push(ws[i].clone());
            proof {
                assert(kept@.map_values(|w: String| w@) =~= before.map_values(|w: String| w@).push(
                    ws@[i as int]@,
                ));
            }
        }
        i = i + 1;
    }
    proof {
        assert(wv.take(i as int) =~= wv);
    }
    join_words(&kept)
}

/// The manufacturer of a display name, when its first word is one.
pub fn maker_of(name: &str) -> (r: Option<String>)
    ensures
        match r {
            Some(m) => spec_maker(name@) == Some(m@),
            None => spec_maker(name@) is None,
        },
{
    let ws = words(name);
    proof {
        if ws@.len() > 0 {
            assert(ws@.map_values(|w: String| w@)[0] == ws@[0]@);
        }
    }
    if ws.len() > 0 && is_known_maker_word(ws[0].as_str()) {
        Some(ws[0].clone())
    } else {
        None
    }
}

fn make_matches_exec(o: &OutputInfo, mfr: &str) -> (r: bool)
    ensures
        r == make_matches(*o, mfr@),
{
    match &o.make {
        Some(m) => {
            let lm = lowercase(m.as_str());
            let lf = lowercase(mfr);
            contains_text(lm.as_str(), lf.as_str())
        },
        None => false,
    }
}

fn serial_is(o: &OutputInfo, serial: &str) -> (r: bool)
    ensures
        r == (o.serial_number matches Some(s) && s@ == serial@),
{
    match &o.serial_number {
        Some(s) => crate::text::str_eq(s.as_str(), serial),
        None => false,
    }
}

fn output_matches(pass: u8, o: &OutputInfo, clean: &str, mfr: &Option<String>, serial: Option<&str>) -> (r: bool)
    requires
        1 <= pass <= 5,
    ensures
        r == pass_matches(
            pass as int,
            *o,
            clean@,
            opt_text(*mfr),
            match serial {
                Some(s) => Some(s@),
                None => None,
            },
        ),
{
    if !o.enabled {
        return false;
    }
    if pass == 1 {
        match (mfr, serial) {
            (Some(m), Some(s)) => make_matches_exec(o, m.as_str()) && eq_ignore_ascii_case(o.model.as_str(), clean)
                && serial_is(o, s),
            _ => false,
        }
    } else if pass == 2 {
        match mfr {
            Some(m) => make_matches_exec(o, m.as_str()) && eq_ignore_ascii_case(o.model.as_str(), clean),
            None => false,
        }
    } else if pass == 3 {
        if eq_ignore_ascii_case(o.model.as_str(), clean) {
            true
        } else {
            let a = without_spaces(o.model.as_str());
            let b = without_spaces(clean);
            eq_ignore_ascii_case(a.as_str(), b.as_str())
        }
    } else if pass == 4 {
        match mfr {
            Some(m) => {
                if make_matches_exec(o, m.as_str()) {
                    let lm = lowercase(o.model.as_str());
                    let lc = lowercase(clean);
                    contains_text(lm.as_str(), lc.as_str())
                } else {
                    false
                }
            },
            None => false,
        }
    } else {
        let lm = lowercase(o.model.as_str());
        let lc = lowercase(clean);
        contains_text(lm.as_str(), lc.as_str())
    }
}

/// Correlates a display, by its name and its EDID serial if known, with an
/// output of the compositor (see the module documentation for the order).
pub fn find_matching_output_with_serial(
    model_name: &str,
    edid_serial: Option<&str>,
    outputs: &Vec<OutputInfo>,
) -> (r: Option<OutputInfo>)
    ensures
        r == spec_match(
            outputs@,
            model_name@,
            match edid_serial {
                Some(s) => Some(s@),
                None => None,
            },
        ),
{
    let clean = clean_model(model_name);
    let mfr = maker_of(model_name);
    let ghost sv = match edid_serial {
        Some(s) => Some(s@),
        None => None,
    };
    let ghost mv = opt_text(mfr);
    let ghost outs = outputs@;
    proof {
        assert(mv == spec_maker(model_name@));
    }
    let mut pass: u8 = 1;
    while pass <= 5
        invariant
            1 <= pass <= 6,
            outs == outputs@,
            clean@ == spec_clean_model(model_name@),
            mv == spec_maker(model_name@),
            mv == opt_text(mfr),
            sv == match edid_serial {
                Some(s) => Some(s@),
                None => None::<Seq<char>>,
            },
            forall|q: int| 1 <= q < pass ==> !has_match(outs, q, clean@, mv, sv),
        decreases 6 - pass,
    {
        let mut i: usize = 0;
        while i < outputs.len()
            invariant
                1 <= pass <= 5,
                i <= outputs@.len(),
                outs == outputs@,
                mv == opt_text(mfr),
                forall|j: int| 0 <= j < i ==> !pass_matches(pass as int, #[trigger] outs[j], clean@, mv, sv),
                clean@ == spec_clean_model(model_name@),
                mv == spec_maker(model_name@),
                sv == match edid_serial {
                    Some(s) => Some(s@),
                    None => None::<Seq<char>>,
                },
                forall|q: int| 1 <= q < pass ==> !has_match(outs, q, clean@, mv, sv),
            decreases outputs.len() - i,
        {
            if output_matches(pass, &outputs[i], clean.as_str(), &mfr, edid_serial) {
                proof {
                    assert(is_first_match(outs, pass as int, i as int, clean@, mv, sv));
                    let first = choose|f: int| is_first_match(outs, pass as int, f, clean@, mv, sv);
                    if first < i {
                        assert(!pass_matches(pass as int, outs[first], clean@, mv, sv));
                    }
                    if first > i {
                        assert(!pass_matches(pass as int, outs[i as int], clean@, mv, sv));
                    }
                }
                return Some(outputs[i].duplicate());
            }
            i = i + 1;
        }
        pass = pass + 1;
    }
    proof {
        assert(best_pass(outs, clean@, mv, sv) == 0);
    }
    None
}

/// Correlates a display, by its name alone, with an output.
pub fn find_matching_output(model_name: &str, outputs: &Vec<OutputInfo>) -> (r: Option<OutputInfo>)
    ensures
        r == spec_match(outputs@, model_name@, None),
{
    find_matching_output_with_serial(model_name, None, outputs)
}

/// Whether an output's manufacturer and model are `mk` and `model`
/// (ignoring ASCII case).
pub open spec fn make_model_hit(o: OutputInfo, mk: Seq<char>, model: Seq<char>) -> bool {
    o.make matches Some(om) && spec_eq_ignore_ascii_case(om@, mk) && spec_eq_ignore_ascii_case(o.model@, model)
}

/// The index of the first output from `n` on whose manufacturer and model
/// are `mk` and `model`.
pub open spec fn first_hit_from(outs: Seq<OutputInfo>, mk: Seq<char>, model: Seq<char>, n: int) -> Option<int>
    decreases outs.len() - n,
{
    if n < 0 || n >= outs.len() {
        None
    } else if make_model_hit(outs[n], mk, model) {
        Some(n)
    } else {
        first_hit_from(outs, mk, model, n + 1)
    }
}

/// The output that a manufacturer and model find: the first exact
/// (ASCII-case-insensitive) match of both, else the correlation by model.
pub open spec fn spec_make_model(outs: Seq<OutputInfo>, make: Option<Seq<char>>, model: Seq<char>) -> Option<
    OutputInfo,
> {
    match make {
        Some(mk) => match first_hit_from(outs, mk, model, 0) {
            Some(i) => Some(outs[i]),
            None => spec_match(outs, model, None),
        },
        None => spec_match(outs, model, None),
    }
}

/// Finds the first output whose manufacturer and model are `make` and
/// `model` (ignoring ASCII case, enabled or not); failing that, or without a
/// manufacturer, correlates by the model alone.
pub fn find_output_by_make_model(make: Option<&str>, model: &str, outputs: &Vec<OutputInfo>) -> (r: Option<
    OutputInfo,
>)
    ensures
        r == spec_make_model(
            outputs@,
            match make {
                Some(m) => Some(m@),
                None => None,
            },
            model@,
        ),
{
    if let Some(mk) = make {
        let mut i: usize = 0;
        while i < outputs.len()
            invariant
                i <= outputs@.len(),
                make == Some(mk),
                first_hit_from(outputs@, mk@, model@, 0) == first_hit_from(outputs@, mk@, model@, i as int),
            decreases outputs.len() - i,
        {
            let o = &outputs[i];
            let hit = match &o.make {
                Some(om) => eq_ignore_ascii_case(om.as_str(), mk) && eq_ignore_ascii_case(o.model.as_str(), model),
                None => false,
            };
            if hit {
                return Some(o.duplicate());
            }
            i = i + 1;
        }
    }
    find_matching_output(model, outputs)
}

/// The EDID serial that correlation finds for a display name, used to give
/// a DDC/CI display a stable identity.
pub fn serial_for(model_name: &str, outputs: &Vec<OutputInfo>) -> (r: Option<String>)
    ensures
        r == match spec_match(outputs@, model_name@, None) {
            Some(o) => o.serial_number,
            None => None,
        },
{
    match find_matching_output(model_name, outputs) {
        Some(o) => o.serial_number,
        None => None,
    }
}

/// Fills in the connector name and EDID serial of snapshots that lack them,
/// from the output each one's name is matched to. Fields already set stay.
pub fn enrich_snapshots(snapshot: &mut Vec<(String, MonitorInfo)>, outputs: &Vec<OutputInfo>)
    ensures
        final(snapshot)@.len() == old(snapshot)@.len(),
        forall|i: int|
            0 <= i < final(snapshot)@.len() ==> {
                let before = old(snapshot)@[i];
                let after = #[trigger] final(snapshot)@[i];
                let m = spec_match(outputs@, before.1.name@, None);
                &&& after.0 == before.0
                &&& after.1.name == before.1.name
                &&& after.1.brightness == before.1.brightness
                &&& after.1.connector_name == if before.1.connector_name is None && m is Some {
                    Some(m.unwrap().connector_name)
                } else {
                    before.1.connector_name
                }
                &&& after.1.edid_serial == if before.1.edid_serial is None && m is Some {
                    m.unwrap().serial_number
                } else {
                    before.1.edid_serial
                }
            },
{
    let ghost orig = snapshot@;
    let mut done: Vec<(String, MonitorInfo)> = Vec::new();
    let mut rest: Vec<(String, MonitorInfo)> = Vec::new();
    std::mem::swap(snapshot, &mut rest);
    let ghost mut k: int = 0;
    while rest.len() > 0
        invariant
            0 <= k <= orig.len(),
            rest@ == orig.skip(k),
            done@.len() == k,
            forall|i: int|
                0 <= i < k ==> {
                    let before = orig[i];
                    let after = #[trigger] done@[i];
                    let m = spec_match(outputs@, before.1.name@, None);
                    &&& after.0 == before.0
                    &&& after.1.name == before.1.name
                    &&& after.1.brightness == before.1.brightness
                    &&& after.1.connector_name == if before.1.connector_name is None && m is Some {
                        Some(m.unwrap().connector_name)
                    } else {
                        before.1.connector_name
                    }
                    &&& after.1.edid_serial == if before.1.edid_serial is None && m is Some {
                        m.unwrap().serial_number
                    } else {
                        before.1.edid_serial
                    }
                },
        decreases rest.len(),
    {
        let (id, mut info) = rest.remove(0);
        proof {
            assert(orig[k] == (id, info));
        }
        if info.connector_name.is_none() || info.edid_serial.is_none() {
            if let Some(o) = find_matching_output(info.name.as_str(), outputs) {
                if info.connector_name.is_none() {
                    info.connector_name = Some(o.connector_name);
                }
                if info.edid_serial.is_none() {
                    info.edid_serial = o.serial_number;
                }
            }
        }
        done.push((id, info));
        proof {
            k = k + 1;
            assert(rest@ =~= orig.skip(k));
        }
    }
    *snapshot = done;
}

/// The compositor's name for a transform: `90` is `rotate90`, `flipped-90`
/// is `flipped90`, and so on; anything unknown is `normal`.
pub open spec fn spec_transform_name(t: Seq<char>) -> Seq<char> {
    if t == "90"@ {
        "rotate90"@
    } else if t == "180"@ {
        "rotate180"@
    } else if t == "270"@ {
        "rotate270"@
    } else if t == "flipped"@ {
        "flipped"@
    } else if t == "flipped-90"@ {
        "flipped90"@
    } else if t == "flipped-180"@ {
        "flipped180"@
    } else if t == "flipped-270"@ {
        "flipped270"@
    } else {
        "normal"@
    }
}

/// Maps a stored transform to the compositor's name for it.
pub fn map_transform_to_randr(transform: &str) -> (r: &'static str)
    ensures
        r@ == spec_transform_name(transform@),
{
    if str_eq(transform, "90") {
        "rotate90"
    } else if str_eq(transform, "180") {
        "rotate180"
    } else if str_eq(transform, "270") {
        "rotate270"
    } else if str_eq(transform, "flipped") {
        "flipped"
    } else if str_eq(transform, "flipped-90") {
        "flipped90"
    } else if str_eq(transform, "flipped-180") {
        "flipped180"
    } else if str_eq(transform, "flipped-270") {
        "flipped270"
    } else {
        "normal"
    }
}

/// A display's label: its name, followed by its connector in parentheses
/// when known.
pub fn format_display_name(name: &str, connector: &Option<String>) -> (r: String)
    ensures
        r@ == match connector {
            Some(c) => name@ + " ("@ + c@ + ")"@,
            None => name@,
        },
{
    match connector {
        Some(c) => {
            let mut r = String::from_str(name);
            r.append(" (");
            r.append(c.as_str());
            r.append(")");
            r
        },
        None => String::from_str(name),
    }
}

} // verus!
