//! The pin configuration: its data model, the checks on it, the reading of
//! one fragment, and the lookup of a pin by name or number.
use crate::decimal::{parse_decimal, parse_u64};
use crate::decode::{decode_document, read_document, ConfigField};
use crate::merge::{find_num, is_first_with};
use crate::toml_doc::{parse_document, toml_document, TomlValue};
use vstd::prelude::*;

verus! {

/// Two pins of a configuration that share a name: `pin` is the later entry,
/// `other_pin` the earliest one that holds `name` too.
#[derive(Debug, Clone)]
pub struct DuplicateName {
    pub name: String,
    pub pin: u64,
    pub other_pin: u64,
}

/// Why a configuration could not be had.
#[derive(Debug)]
pub enum Error {
    /// A fragment could not be read; the message of the I/O error.
    IoError(String),
    /// A fragment is not a TOML document; the parser's message.
    ParserErrors(String),
    /// A fragment is TOML but does not fit the schema.
    DecodingError(ConfigField),
    /// No fragment was found.
    NoConfigFound,
    /// Two pins share a name.
    DuplicateNames(DuplicateName),
}

/// `sysfs_gpio::Pin`, the driver's handle on a pin, carried as an opaque value.
#[verifier::external_type_specification]
#[verifier::external_body]
pub struct ExPin(sysfs_gpio::Pin);

/// Symlink root used when no fragment names one.
pub const DEFAULT_SYMLINK_ROOT: &'static str = "/var/run/gpio";

/// Direction of a pin as written in a configuration fragment.
#[derive(Debug, Clone, Copy, PartialEq, Eq, Structural)]
pub enum DirectionDef {
    In,
    Out,
    High,
    Low,
}

/// Direction that a pin takes when a fragment does not give one.
pub fn default_direction() -> (r: DirectionDef)
    ensures
        r == DirectionDef::In,
{
    DirectionDef::In
}

/// Value of the `export` flag when a fragment does not give one.
pub fn bool_true() -> (r: bool)
    ensures
        r,
{
    true
}

/// The declared state of one pin.
#[derive(Debug, Clone, PartialEq, Eq)]
pub struct PinConfig {
    pub num: u64,
    pub direction: DirectionDef,
    /// Aliases of the pin, each held once.
    pub names: Vec<String>,
    pub export: bool,
    pub active_low: bool,
    pub user: Option<String>,
    pub group: Option<String>,
    pub mode: Option<u32>,
}

/// What a pin declares, with its names as a set.
pub struct PinModel {
    pub num: u64,
    pub direction: DirectionDef,
    pub names: Set<Seq<char>>,
    pub export: bool,
    pub active_low: bool,
    pub user: Option<Seq<char>>,
    pub group: Option<Seq<char>>,
    pub mode: Option<u32>,
}

pub open spec fn text_of(s: Option<String>) -> Option<Seq<char>> {
    match s {
        Some(t) => Some(t@),
        None => None,
    }
}

/// The set of the texts in `names`.
pub open spec fn name_set(names: Seq<String>) -> Set<Seq<char>> {
    Set::new(|n: Seq<char>| exists|k: int| 0 <= k < names.len() && (#[trigger] names[k])@ == n)
}

/// No text occurs twice in `names`.
pub open spec fn distinct_names(names: Seq<String>) -> bool {
    forall|a: int, b: int|
        0 <= a < names.len() && 0 <= b < names.len() && a != b ==> (#[trigger] names[a])@
            != (#[trigger] names[b])@
}

impl View for PinConfig {
    type V = PinModel;

    open spec fn view(&self) -> PinModel {
        PinModel {
            num: self.num,
            direction: self.direction,
            names: name_set(self.names@),
            export: self.export,
            active_low: self.active_low,
            user: text_of(self.user),
            group: text_of(self.group),
            mode: self.mode,
        }
    }
}

impl PinConfig {
    /// Relies on `sysfs_gpio::Pin::new`: the driver's handle on the pin with
    /// this number; making it does not export the pin.
    #[verifier::external_body]
    pub fn get_pin(&self) -> sysfs_gpio::Pin {
        sysfs_gpio::Pin::new(self.num)
    }

    /// Each name is held once.
    pub open spec fn wf(&self) -> bool {
        distinct_names(self.names@)
    }
}

/// Settings that are not about one pin.
#[derive(Debug, Clone, Default)]
pub struct SysConfig {
    pub symlink_root: Option<String>,
}

/// A configuration: the pins in the order in which they were first declared,
/// and the settings.
#[derive(Debug, Clone, Default)]
pub struct GpioConfig {
    pub pins: Vec<PinConfig>,
    pub config: SysConfig,
}

/// What a configuration declares.
pub struct ConfigModel {
    pub pins: Seq<PinModel>,
    pub symlink_root: Option<Seq<char>>,
}

pub open spec fn pins_view(pins: Seq<PinConfig>) -> Seq<PinModel> {
    pins.map_values(|p: PinConfig| p@)
}

impl View for GpioConfig {
    type V = ConfigModel;

    open spec fn view(&self) -> ConfigModel {
        ConfigModel { pins: pins_view(self.pins@), symlink_root: text_of(self.config.symlink_root) }
    }
}

impl GpioConfig {
    /// Every pin holds each of its names once.
    pub open spec fn wf(&self) -> bool {
        forall|i: int| 0 <= i < self.pins@.len() ==> (#[trigger] self.pins@[i]).wf()
    }
}

/// Whether `names` holds the text of `n`.
pub fn holds_name(names: &Vec<String>, n: &String) -> (r: bool)
    ensures
        r == name_set(names@).contains(n@),
{
    let mut k: usize = 0;
    while k < names.len()
        invariant
            0 <= k <= names@.len(),
            forall|j: int| 0 <= j < k ==> (#[trigger] names@[j])@ != n@,
        decreases names@.len() - k,
    {
        if names[k] == *n {
            return true;
        }
        k = k + 1;
    }
    false
}

/// Adds `n` to `names` unless it is already there.
pub fn add_name(names: &mut Vec<String>, n: String)
    requires
        distinct_names(old(names)@),
    ensures
        distinct_names(final(names)@),
        name_set(final(names)@) == name_set(old(names)@).insert(n@),
        name_set(old(names)@).contains(n@) ==> final(names)@ == old(names)@,
{
    if !holds_name(names, &n) {
        names.push(n);
        assert(name_set(names@) =~= name_set(old(names)@).insert(n@)) by {
            assert(names@[names@.len() - 1] == n);
            assert forall|m: Seq<char>| name_set(old(names)@).contains(m) implies name_set(
                names@,
            ).contains(m) by {
                let k = choose|k: int| 0 <= k < old(names)@.len() && (#[trigger] old(names)@[k])@ == m;
                assert(names@[k] == old(names)@[k]);
            }
        }
    } else {
        assert(name_set(names@) =~= name_set(old(names)@).insert(n@));
    }
}

/// The two pins have a name in common.
pub open spec fn shares_name(a: PinModel, b: PinModel) -> bool {
    exists|n: Seq<char>| a.names.contains(n) && b.names.contains(n)
}

/// No two entries before `j` share a name.
pub open spec fn unique_before(pins: Seq<PinModel>, j: int) -> bool {
    forall|a: int, b: int| 0 <= a < b < j ==> !shares_name(#[trigger] pins[a], #[trigger] pins[b])
}

/// No two entries share a name.
pub open spec fn names_unique(pins: Seq<PinModel>) -> bool {
    unique_before(pins, pins.len() as int)
}

/// `d` reports the first entry `j` that shares a name with an earlier one,
/// one such name, and the earliest entry `i` that holds it.
pub open spec fn reports_clash(pins: Seq<PinModel>, d: DuplicateName) -> bool {
    exists|i: int, j: int|
        0 <= i < j < pins.len() && unique_before(pins, j) && (#[trigger] pins[j]).names.contains(
            d.name@,
        ) && (#[trigger] pins[i]).names.contains(d.name@) && (forall|h: int|
            0 <= h < i ==> !(#[trigger] pins[h]).names.contains(d.name@)) && d.pin == pins[j].num
            && d.other_pin == pins[i].num
}

proof fn lemma_clash_found(pins: Seq<PinModel>, i: int, j: int, d: DuplicateName)
    requires
        0 <= i < j < pins.len(),
        unique_before(pins, j),
        pins[j].names.contains(d.name@),
        pins[i].names.contains(d.name@),
        forall|h: int| 0 <= h < i ==> !(#[trigger] pins[h]).names.contains(d.name@),
        d.pin == pins[j].num,
        d.other_pin == pins[i].num,
    ensures
        reports_clash(pins, d),
        !names_unique(pins),
{
    assert(shares_name(pins[i], pins[j]));
}

/// The first of the pins before `upto` that holds `n`.
fn first_holder(pins: &Vec<PinConfig>, upto: usize, n: &String) -> (r: Option<usize>)
    requires
        upto <= pins@.len(),
    ensures
        r matches Some(i) ==> i < upto && pins@[i as int]@.names.contains(n@) && forall|h: int|
            0 <= h < i ==> !(#[trigger] pins@[h])@.names.contains(n@),
        r is None ==> forall|h: int| 0 <= h < upto ==> !(#[trigger] pins@[h])@.names.contains(n@),
{
    let mut i: usize = 0;
    while i < upto
        invariant
            0 <= i <= upto <= pins@.len(),
            forall|h: int| 0 <= h < i ==> !(#[trigger] pins@[h])@.names.contains(n@),
        decreases upto - i,
    {
        if holds_name(&pins[i].names, n) {
            return Some(i);
        }
        i = i + 1;
    }
    None
}

impl GpioConfig {
    /// Checks that no two pins share a name.
    pub fn validate(&self) -> (r: Result<(), Error>)
        ensures
            r is Ok <==> names_unique(self@.pins),
            r is Err ==> r->Err_0 is DuplicateNames && reports_clash(
                self@.pins,
                r->Err_0->DuplicateNames_0,
            ),
    {
        let ghost model = self@.pins;
        let mut j: usize = 0;
        while j < self.pins.len()
            invariant
                0 <= j <= self.pins@.len(),
                model == self@.pins,
                unique_before(model, j as int),
            decreases self.pins@.len() - j,
        {
            let names = &self.pins[j].names;
            assert(model[j as int] == self.pins@[j as int]@);
            let mut k: usize = 0;
            while k < names.len()
                invariant
                    0 <= k <= names@.len(),
                    j < self.pins@.len(),
                    names == self.pins@[j as int].names,
                    model == self@.pins,
                    model[j as int] == self.pins@[j as int]@,
                    unique_before(model, j as int),
                    forall|kk: int, i: int|
                        0 <= kk < k && 0 <= i < j ==> !(#[trigger] model[i]).names.contains(
                            (#[trigger] names@[kk])@,
                        ),
                decreases names@.len() - k,
            {
                match first_holder(&self.pins, j, &names[k]) {
                    Some(i) => {
                        let d = DuplicateName {
                            name: names[k].clone(),
                            pin: self.pins[j].num,
                            other_pin: self.pins[i].num,
                        };
                        proof {
                            lemma_clash_found(model, i as int, j as int, d);
                        }
                        return Err(Error::DuplicateNames(d));
                    },
                    None => {},
                }
                k = k + 1;
            }
            assert forall|a: int, b: int| 0 <= a < b < j + 1 implies !shares_name(
                #[trigger] model[a],
                #[trigger] model[b],
            ) by {
                if b == j && shares_name(model[a], model[b]) {
                    let n = choose|n: Seq<char>|
                        model[a].names.contains(n) && model[b].names.contains(n);
                    let kk = choose|kk: int| 0 <= kk < names@.len() && (#[trigger] names@[kk])@ == n;
                    assert(!model[a].names.contains(names@[kk]@));
                }
            }
            j = j + 1;
        }
        Ok(())
    }
}

/// What reading one fragment gives: its configuration where it fits the
/// schema and no two pins share a name, else the error.
pub open spec fn fragment_outcome(doc: TomlValue, r: Result<GpioConfig, Error>) -> bool {
    match decode_document(doc) {
        Err(f) => r == Err::<GpioConfig, Error>(Error::DecodingError(f)),
        Ok(m) => if names_unique(m.pins) {
            r is Ok && r->Ok_0@ == m && r->Ok_0.wf()
        } else {
            r is Err && r->Err_0 is DuplicateNames && reports_clash(m.pins, r->Err_0->DuplicateNames_0)
        },
    }
}

impl GpioConfig {
    /// Reads the configuration that a parsed TOML document declares.
    pub fn from_document(doc: &TomlValue) -> (r: Result<GpioConfig, Error>)
        ensures
            fragment_outcome(*doc, r),
    {
        match read_document(doc) {
            Err(f) => Err(Error::DecodingError(f)),
            Ok(cfg) => match cfg.validate() {
                Ok(()) => Ok(cfg),
                Err(e) => Err(e),
            },
        }
    }

    /// Reads a configuration from the text of one fragment.
    pub fn from_str(config: &str) -> (r: Result<GpioConfig, Error>)
        ensures
            toml_document(config@) is None ==> r is Err && r->Err_0 is ParserErrors,
            toml_document(config@) is Some ==> fragment_outcome(toml_document(config@)->Some_0, r),
            config@.len() == 0 ==> r is Ok && r->Ok_0.pins@.len() == 0
                && r->Ok_0.config.symlink_root is None,
    {
        match parse_document(config) {
            Err(msg) => Err(Error::ParserErrors(msg)),
            Ok(doc) => Self::from_document(&doc),
        }
    }
}

/// `i` is the first entry that has the name `n`.
pub open spec fn is_first_named(pins: Seq<PinModel>, n: Seq<char>, i: int) -> bool {
    0 <= i < pins.len() && pins[i].names.contains(n) && forall|h: int|
        0 <= h < i ==> !(#[trigger] pins[h]).names.contains(n)
}

/// The entry that an identifier picks: the first pin with that name; where
/// none has it, the first pin whose number the identifier writes in decimal.
pub open spec fn pin_lookup(pins: Seq<PinModel>, id: Seq<char>) -> Option<int> {
    if exists|i: int| is_first_named(pins, id, i) {
        Some(choose|i: int| is_first_named(pins, id, i))
    } else {
        match parse_decimal(id) {
            Some(v) => if exists|i: int| is_first_with(pins, v, i) {
                Some(choose|i: int| is_first_with(pins, v, i))
            } else {
                None
            },
            None => None,
        }
    }
}

impl GpioConfig {
    /// The pin that `name` identifies, by name first and else by number.
    pub fn get_pin(&self, name: &str) -> (r: Option<&PinConfig>)
        ensures
            r is Some <==> pin_lookup(self@.pins, name@) is Some,
            r is Some ==> *r->Some_0 == self.pins@[pin_lookup(self@.pins, name@)->Some_0],
    {
        let ghost pins = self@.pins;
        let wanted = name.to_owned();
        let mut i: usize = 0;
        while i < self.pins.len()
            invariant
                0 <= i <= self.pins@.len(),
                pins == self@.pins,
                wanted@ == name@,
                forall|h: int| 0 <= h < i ==> !(#[trigger] pins[h]).names.contains(name@),
            decreases self.pins@.len() - i,
        {
            if holds_name(&self.pins[i].names, &wanted) {
                proof {
                    assert(pins[i as int] == self.pins@[i as int]@);
                    assert(is_first_named(pins, name@, i as int));
                    let c = choose|c: int| is_first_named(pins, name@, c);
                    if c < i {
                        assert(!pins[c].names.contains(name@));
                    } else if c > i {
                        assert(!pins[i as int].names.contains(name@));
                    }
                }
                return Some(&self.pins[i]);
            }
            assert(pins[i as int] == self.pins@[i as int]@);
            i = i + 1;
        }
        assert(!exists|c: int| is_first_named(pins, name@, c));
        match parse_u64(name) {
            Some(num) => match find_num(&self.pins, num) {
                Some(j) => {
                    proof {
                        let c = choose|c: int| is_first_with(pins, num, c);
                        if c < j {
                            assert(pins[c].num != num);
                        } else if c > j {
                            assert(pins[j as int].num != num);
                        }
                    }
                    Some(&self.pins[j])
                },
                None => {
                    assert forall|c: int| !is_first_with(pins, num, c) by {
                        if 0 <= c < pins.len() {
                            assert(pins[c] == self.pins@[c]@);
                        }
                    }
                    None
                },
            },
            None => None,
        }
    }

    /// All pins, in the order in which they were first declared.
    pub fn get_pins(&self) -> (r: &[PinConfig])
        ensures
            r@ == self.pins@,
    {
        self.pins.as_slice()
    }

    /// The symlink root that the configuration names, or the default one.
    pub fn get_symlink_root(&self) -> (r: &str)
        ensures
            self.config.symlink_root is Some ==> r@ == self.config.symlink_root->Some_0@,
            self.config.symlink_root is None ==> r@ == DEFAULT_SYMLINK_ROOT@,
    {
        match &self.config.symlink_root {
            Some(root) => root.as_str(),
            None => DEFAULT_SYMLINK_ROOT,
        }
    }
}

pub open spec fn marked_for_export(p: PinConfig) -> bool {
    p.export
}

impl GpioConfig {
    /// The pins that a bulk unexport handles: those marked for export, in
    /// configuration order. A bulk export handles all of `get_pins`.
    pub fn pins_to_unexport(&self) -> (r: Vec<&PinConfig>)
        ensures
            r@.map_values(|p: &PinConfig| *p) == self.pins@.filter(|p: PinConfig| marked_for_export(p)),
    {
        let ghost pred = |p: PinConfig| marked_for_export(p);
        let mut out: Vec<&PinConfig> = Vec::new();
        let mut i: usize = 0;
        proof {
            reveal(Seq::filter);
            assert(self.pins@.subrange(0, 0).filter(pred) =~= Seq::<PinConfig>::empty());
            assert(out@.map_values(|p: &PinConfig| *p) =~= Seq::<PinConfig>::empty());
        }
        while i < self.pins.len()
            invariant
                0 <= i <= self.pins@.len(),
                pred == (|p: PinConfig| marked_for_export(p)),
                out@.map_values(|p: &PinConfig| *p) == self.pins@.subrange(0, i as int).filter(pred),
            decreases self.pins@.len() - i,
        {
            let ghost before = out@;
            let ghost prefix = self.pins@.subrange(0, i + 1);
            proof {
                reveal(Seq::filter);
                assert(prefix.drop_last() =~= self.pins@.subrange(0, i as int));
                assert(prefix.last() == self.pins@[i as int]);
            }
            if self.pins[i].export {
                out.push(&self.pins[i]);
                assert(out@.map_values(|p: &PinConfig| *p) =~= before.map_values(
                    |p: &PinConfig| *p,
                ).push(self.pins@[i as int]));
            }
            i = i + 1;
        }
        assert(self.pins@.subrange(0, self.pins@.len() as int) =~= self.pins@);
        out
    }
}

} // verus!
