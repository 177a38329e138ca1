//! The schema of a configuration fragment: which keys it reads from a TOML
//! document, their types, and the values that omitted keys take.
use crate::config::{
    add_name, bool_true, default_direction, distinct_names, name_set, pins_view, text_of,
    ConfigModel, DirectionDef, GpioConfig, PinConfig, PinModel, SysConfig,
};
use crate::toml_doc::{get, lookup, same_text, TomlEntry, TomlValue};
use vstd::prelude::*;

verus! {

/// The field of a fragment that is missing where it is required, or that
/// holds a value of the wrong type or range.
#[derive(Debug, Clone, Copy, PartialEq, Eq, Structural)]
pub enum ConfigField {
    Pins,
    Num,
    Direction,
    Names,
    Export,
    ActiveLow,
    User,
    Group,
    Mode,
    Config,
    SymlinkRoot,
}

pub open spec fn decode_num(v: Option<TomlValue>) -> Result<u64, ConfigField> {
    match v {
        Some(TomlValue::Integer(i)) => if i >= 0 {
            Ok(i as u64)
        } else {
            Err(ConfigField::Num)
        },
        _ => Err(ConfigField::Num),
    }
}

pub open spec fn decode_direction(v: Option<TomlValue>) -> Result<DirectionDef, ConfigField> {
    match v {
        None => Ok(DirectionDef::In),
        Some(TomlValue::Str(s)) => if s@ == "in"@ {
            Ok(DirectionDef::In)
        } else if s@ == "out"@ {
            Ok(DirectionDef::Out)
        } else if s@ == "high"@ {
            Ok(DirectionDef::High)
        } else if s@ == "low"@ {
            Ok(DirectionDef::Low)
        } else {
            Err(ConfigField::Direction)
        },
        _ => Err(ConfigField::Direction),
    }
}

/// Every item is a string.
pub open spec fn all_text(items: Seq<TomlValue>) -> bool {
    forall|k: int| 0 <= k < items.len() ==> (#[trigger] items[k]) is Str
}

/// The texts of the string items.
pub open spec fn text_set(items: Seq<TomlValue>) -> Set<Seq<char>> {
    Set::new(
        |n: Seq<char>|
            exists|k: int| 0 <= k < items.len() && (#[trigger] items[k]) is Str && items[k]->Str_0@ == n,
    )
}

pub open spec fn decode_names(v: Option<TomlValue>) -> Result<Set<Seq<char>>, ConfigField> {
    match v {
        None => Ok(Set::empty()),
        Some(TomlValue::Array(items)) => if all_text(items@) {
            Ok(text_set(items@))
        } else {
            Err(ConfigField::Names)
        },
        _ => Err(ConfigField::Names),
    }
}

pub open spec fn decode_flag(v: Option<TomlValue>, default: bool, field: ConfigField) -> Result<
    bool,
    ConfigField,
> {
    match v {
        None => Ok(default),
        Some(TomlValue::Boolean(b)) => Ok(b),
        _ => Err(field),
    }
}

pub open spec fn decode_text(v: Option<TomlValue>, field: ConfigField) -> Result<
    Option<Seq<char>>,
    ConfigField,
> {
    match v {
        None => Ok(None),
        Some(TomlValue::Str(s)) => Ok(Some(s@)),
        _ => Err(field),
    }
}

pub open spec fn decode_mode(v: Option<TomlValue>) -> Result<Option<u32>, ConfigField> {
    match v {
        None => Ok(None),
        Some(TomlValue::Integer(i)) => if 0 <= i <= u32::MAX {
            Ok(Some(i as u32))
        } else {
            Err(ConfigField::Mode)
        },
        _ => Err(ConfigField::Mode),
    }
}

/// The pin that a table of a fragment declares; fields are read in the order
/// of the struct, and the first bad one is reported.
pub open spec fn decode_pin_entries(es: Seq<TomlEntry>) -> Result<PinModel, ConfigField> {
    match decode_num(lookup(es, "num"@)) {
        Err(f) => Err(f),
        Ok(num) => match decode_direction(lookup(es, "direction"@)) {
            Err(f) => Err(f),
            Ok(direction) => match decode_names(lookup(es, "names"@)) {
                Err(f) => Err(f),
                Ok(names) => match decode_flag(lookup(es, "export"@), true, ConfigField::Export) {
                    Err(f) => Err(f),
                    Ok(export) => match decode_flag(
                        lookup(es, "active_low"@),
                        false,
                        ConfigField::ActiveLow,
                    ) {
                        Err(f) => Err(f),
                        Ok(active_low) => match decode_text(lookup(es, "user"@), ConfigField::User) {
                            Err(f) => Err(f),
                            Ok(user) => match decode_text(
                                lookup(es, "group"@),
                                ConfigField::Group,
                            ) {
                                Err(f) => Err(f),
                                Ok(group) => match decode_mode(lookup(es, "mode"@)) {
                                    Err(f) => Err(f),
                                    Ok(mode) => Ok(
                                        PinModel {
                                            num,
                                            direction,
                                            names,
                                            export,
                                            active_low,
                                            user,
                                            group,
                                            mode,
                                        },
                                    ),
                                },
                            },
                        },
                    },
                },
            },
        },
    }
}

pub open spec fn decode_pin(v: TomlValue) -> Result<PinModel, ConfigField> {
    match v {
        TomlValue::Table(es) => decode_pin_entries(es@),
        _ => Err(ConfigField::Pins),
    }
}

/// The pins of a list of tables, in order; the first bad table is reported.
pub open spec fn decode_pin_list(items: Seq<TomlValue>) -> Result<Seq<PinModel>, ConfigField>
    decreases items.len(),
{
    if items.len() == 0 {
        Ok(Seq::empty())
    } else {
        match decode_pin_list(items.drop_last()) {
            Err(f) => Err(f),
            Ok(pins) => match decode_pin(items.last()) {
                Err(f) => Err(f),
                Ok(p) => Ok(pins.push(p)),
            },
        }
    }
}

pub open spec fn decode_pins(v: Option<TomlValue>) -> Result<Seq<PinModel>, ConfigField> {
    match v {
        None => Ok(Seq::empty()),
        Some(TomlValue::Array(items)) => decode_pin_list(items@),
        _ => Err(ConfigField::Pins),
    }
}

pub open spec fn decode_settings(v: Option<TomlValue>) -> Result<Option<Seq<char>>, ConfigField> {
    match v {
        None => Ok(None),
        Some(TomlValue::Table(es)) => decode_text(lookup(es@, "symlink_root"@), ConfigField::SymlinkRoot),
        _ => Err(ConfigField::Config),
    }
}

/// The configuration that a document declares: its `pins` (none where the
/// key is absent) and its `config` table.
pub open spec fn decode_document(doc: TomlValue) -> Result<ConfigModel, ConfigField> {
    match doc {
        TomlValue::Table(es) => match decode_pins(lookup(es@, "pins"@)) {
            Err(f) => Err(f),
            Ok(pins) => match decode_settings(lookup(es@, "config"@)) {
                Err(f) => Err(f),
                Ok(root) => Ok(ConfigModel { pins, symlink_root: root }),
            },
        },
        _ => Err(ConfigField::Pins),
    }
}

fn read_num(es: &Vec<TomlEntry>) -> (r: Result<u64, ConfigField>)
    ensures
        r == decode_num(lookup(es@, "num"@)),
{
    match get(es, "num") {
        Some(TomlValue::Integer(i)) => if *i >= 0 {
            Ok(*i as u64)
        } else {
            Err(ConfigField::Num)
        },
        _ => Err(ConfigField::Num),
    }
}

fn read_direction(es: &Vec<TomlEntry>) -> (r: Result<DirectionDef, ConfigField>)
    ensures
        r == decode_direction(lookup(es@, "direction"@)),
{
    match get(es, "direction") {
        None => Ok(default_direction()),
        Some(TomlValue::Str(s)) => if same_text(s, "in") {
            Ok(DirectionDef::In)
        } else if same_text(s, "out") {
            Ok(DirectionDef::Out)
        } else if same_text(s, "high") {
            Ok(DirectionDef::High)
        } else if same_text(s, "low") {
            Ok(DirectionDef::Low)
        } else {
            Err(ConfigField::Direction)
        },
        _ => Err(ConfigField::Direction),
    }
}

fn read_flag(es: &Vec<TomlEntry>, key: &str, default: bool, field: ConfigField) -> (r: Result<
    bool,
    ConfigField,
>)
    ensures
        r == decode_flag(lookup(es@, key@), default, field),
{
    match get(es, key) {
        None => Ok(default),
        Some(TomlValue::Boolean(b)) => Ok(*b),
        _ => Err(field),
    }
}

fn read_text(es: &Vec<TomlEntry>, key: &str, field: ConfigField) -> (r: Result<
    Option<String>,
    ConfigField,
>)
    ensures
        r is Ok ==> decode_text(lookup(es@, key@), field) == Ok::<Option<Seq<char>>, ConfigField>(
            text_of(r->Ok_0),
        ),
        r is Err ==> decode_text(lookup(es@, key@), field) == Err::<Option<Seq<char>>, ConfigField>(
            r->Err_0,
        ),
{
    match get(es, key) {
        None => Ok(None),
        Some(TomlValue::Str(s)) => Ok(Some(s.clone())),
        _ => Err(field),
    }
}

fn read_mode(es: &Vec<TomlEntry>) -> (r: Result<Option<u32>, ConfigField>)
    ensures
        r == decode_mode(lookup(es@, "mode"@)),
{
    match get(es, "mode") {
        None => Ok(None),
        Some(TomlValue::Integer(i)) => if 0 <= *i && *i <= u32::MAX as i64 {
            Ok(Some(*i as u32))
        } else {
            Err(ConfigField::Mode)
        },
        _ => Err(ConfigField::Mode),
    }
}

/// The texts of a list of strings, each once.
fn read_name_list(items: &Vec<TomlValue>) -> (r: Option<Vec<String>>)
    ensures
        r is Some <==> all_text(items@),
        r matches Some(names) ==> distinct_names(names@) && name_set(names@) == text_set(items@),
{
    let mut names: Vec<String> = Vec::new();
    let mut i: usize = 0;
    while i < items.len()
        invariant
            0 <= i <= items@.len(),
            all_text(items@.subrange(0, i as int)),
            distinct_names(names@),
            name_set(names@) == text_set(items@.subrange(0, i as int)),
        decreases items@.len() - i,
    {
        match &items[i] {
            TomlValue::Str(s) => {
                let ghost before = items@.subrange(0, i as int);
                let ghost after = items@.subrange(0, i + 1);
                add_name(&mut names, s.clone());
                assert(text_set(after) =~= text_set(before).insert(s@)) by {
                    assert(after[i as int] == items@[i as int]);
                    assert forall|m: Seq<char>| text_set(before).contains(m) implies text_set(
                        after,
                    ).contains(m) by {
                        let k = choose|k: int|
                            0 <= k < before.len() && (#[trigger] before[k]) is Str && before[k]->Str_0@
                                == m;
                        assert(after[k] == before[k]);
                    }
                    assert forall|m: Seq<char>| text_set(after).contains(m) implies text_set(
                        before,
                    ).insert(s@).contains(m) by {
                        let k = choose|k: int|
                            0 <= k < after.len() && (#[trigger] after[k]) is Str && after[k]->Str_0@
                                == m;
                        if k < i {
                            assert(before[k] == after[k]);
                        }
                    }
                }
                assert(all_text(after)) by {
                    assert forall|k: int| 0 <= k < after.len() implies (#[trigger] after[k]) is Str by {
                        if k < i {
                            assert(after[k] == before[k]);
                        }
                    }
                }
            },
            _ => {
                assert(!all_text(items@)) by {
                    assert(!(items@[i as int] is Str));
                }
                return None;
            },
        }
        i = i + 1;
    }
    assert(items@.subrange(0, items@.len() as int) =~= items@);
    Some(names)
}

fn read_names(es: &Vec<TomlEntry>) -> (r: Result<Vec<String>, ConfigField>)
    ensures
        r is Ok ==> distinct_names(r->Ok_0@) && decode_names(lookup(es@, "names"@))
            == Ok::<Set<Seq<char>>, ConfigField>(name_set(r->Ok_0@)),
        r is Err ==> decode_names(lookup(es@, "names"@)) == Err::<Set<Seq<char>>, ConfigField>(
            r->Err_0,
        ),
{
    match get(es, "names") {
        None => {
            let names: Vec<String> = Vec::new();
            assert(name_set(names@) =~= Set::empty());
            Ok(names)
        },
        Some(TomlValue::Array(items)) => match read_name_list(items) {
            Some(names) => Ok(names),
            None => Err(ConfigField::Names),
        },
        _ => Err(ConfigField::Names),
    }
}

/// Reads the pin that a table declares.
pub fn read_pin(es: &Vec<TomlEntry>) -> (r: Result<PinConfig, ConfigField>)
    ensures
        r is Ok ==> r->Ok_0.wf() && decode_pin_entries(es@) == Ok::<PinModel, ConfigField>(
            r->Ok_0@,
        ),
        r is Err ==> decode_pin_entries(es@) == Err::<PinModel, ConfigField>(r->Err_0),
{
    let num = match read_num(es) {
        Ok(n) => n,
        Err(f) => return Err(f),
    };
    let direction = match read_direction(es) {
        Ok(d) => d,
        Err(f) => return Err(f),
    };
    let names = match read_names(es) {
        Ok(n) => n,
        Err(f) => return Err(f),
    };
    let export = match read_flag(es, "export", bool_true(), ConfigField::Export) {
        Ok(b) => b,
        Err(f) => return Err(f),
    };
    let active_low = match read_flag(es, "active_low", false, ConfigField::ActiveLow) {
        Ok(b) => b,
        Err(f) => return Err(f),
    };
    let user = match read_text(es, "user", ConfigField::User) {
        Ok(u) => u,
        Err(f) => return Err(f),
    };
    let group = match read_text(es, "group", ConfigField::Group) {
        Ok(g) => g,
        Err(f) => return Err(f),
    };
    let mode = match read_mode(es) {
        Ok(m) => m,
        Err(f) => return Err(f),
    };
    Ok(PinConfig { num, direction, names, export, active_low, user, group, mode })
}

proof fn lemma_list_error_stays(items: Seq<TomlValue>, k: int)
    requires
        0 <= k <= items.len(),
        decode_pin_list(items.subrange(0, k)) is Err,
    ensures
        decode_pin_list(items) == decode_pin_list(items.subrange(0, k)),
    decreases items.len() - k,
{
    if k < items.len() {
        let next = items.subrange(0, k + 1);
        assert(next.drop_last() =~= items.subrange(0, k));
        lemma_list_error_stays(items, k + 1);
    } else {
        assert(items.subrange(0, k) =~= items);
    }
}

/// Reads the pins of a list of tables, in order.
fn read_pin_list(items: &Vec<TomlValue>) -> (r: Result<Vec<PinConfig>, ConfigField>)
    ensures
        r is Ok ==> (forall|i: int| 0 <= i < r->Ok_0@.len() ==> (#[trigger] r->Ok_0@[i]).wf())
            && decode_pin_list(items@) == Ok::<Seq<PinModel>, ConfigField>(pins_view(r->Ok_0@)),
        r is Err ==> decode_pin_list(items@) == Err::<Seq<PinModel>, ConfigField>(r->Err_0),
{
    let mut pins: Vec<PinConfig> = Vec::new();
    let mut i: usize = 0;
    assert(pins_view(pins@) =~= Seq::<PinModel>::empty());
    while i < items.len()
        invariant
            0 <= i <= items@.len(),
            forall|j: int| 0 <= j < pins@.len() ==> (#[trigger] pins@[j]).wf(),
            decode_pin_list(items@.subrange(0, i as int)) == Ok::<Seq<PinModel>, ConfigField>(
                pins_view(pins@),
            ),
        decreases items@.len() - i,
    {
        let ghost prefix = items@.subrange(0, i + 1);
        assert(prefix.drop_last() =~= items@.subrange(0, i as int));
        assert(prefix.last() == items@[i as int]);
        match &items[i] {
            TomlValue::Table(es) => match read_pin(es) {
                Ok(p) => {
                    let ghost before = pins@;
                    pins.push(p);
                    assert(pins_view(pins@) =~= pins_view(before).push(p@));
                },
                Err(f) => {
                    proof {
                        lemma_list_error_stays(items@, i as int + 1);
                    }
                    return Err(f);
                },
            },
            _ => {
                proof {
                    lemma_list_error_stays(items@, i as int + 1);
                }
                return Err(ConfigField::Pins);
            },
        }
        i = i + 1;
    }
    assert(items@.subrange(0, items@.len() as int) =~= items@);
    Ok(pins)
}

/// Reads the configuration that a document declares.
pub fn read_document(doc: &TomlValue) -> (r: Result<GpioConfig, ConfigField>)
    ensures
        r is Ok ==> r->Ok_0.wf() && decode_document(*doc) == Ok::<ConfigModel, ConfigField>(
            r->Ok_0@,
        ),
        r is Err ==> decode_document(*doc) == Err::<ConfigModel, ConfigField>(r->Err_0),
{
    match doc {
        TomlValue::Table(es) => {
            let pins = match get(es, "pins") {
                None => {
                    let none: Vec<PinConfig> = Vec::new();
                    assert(pins_view(none@) =~= Seq::<PinModel>::empty());
                    none
                },
                Some(TomlValue::Array(items)) => match read_pin_list(items) {
                    Ok(p) => p,
                    Err(f) => return Err(f),
                },
                _ => return Err(ConfigField::Pins),
            };
            let symlink_root = match get(es, "config") {
                None => None,
                Some(TomlValue::Table(settings)) => match read_text(
                    settings,
                    "symlink_root",
                    ConfigField::SymlinkRoot,
                ) {
                    Ok(root) => root,
                    Err(f) => return Err(f),
                },
                _ => return Err(ConfigField::Config),
            };
            Ok(GpioConfig { pins, config: SysConfig { symlink_root } })
        },
        _ => Err(ConfigField::Pins),
    }
}

/// A pin table that gives a valid number and leaves out `direction`,
/// `names`, `export` and `active_low` declares an input pin with no names,
/// to be exported, and not active-low.
pub proof fn omitted_fields_take_defaults(es: Seq<TomlEntry>)
    requires
        decode_num(lookup(es, "num"@)) is Ok,
        lookup(es, "direction"@) is None,
        lookup(es, "names"@) is None,
        lookup(es, "export"@) is None,
        lookup(es, "active_low"@) is None,
        decode_text(lookup(es, "user"@), ConfigField::User) is Ok,
        decode_text(lookup(es, "group"@), ConfigField::Group) is Ok,
        decode_mode(lookup(es, "mode"@)) is Ok,
    ensures
        decode_pin_entries(es) is Ok,
        decode_pin_entries(es)->Ok_0.direction == DirectionDef::In,
        decode_pin_entries(es)->Ok_0.export,
        !decode_pin_entries(es)->Ok_0.active_low,
        decode_pin_entries(es)->Ok_0.names == Set::<Seq<char>>::empty(),
{
}

} // verus!
