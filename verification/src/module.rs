//! The documentation model of one module: decoding the engine's metadata,
//! grouping function overloads, building ordered items and assembling the
//! recursive module tree.
pub mod error;
pub mod options;

use crate::custom_types::{CustomTypesMetadata, CustomTypesMetadataView};
use crate::function::{Metadata, MetadataView, Param, ParamView};
use crate::item::Item;
use crate::json::{spec_obj_get, JsonValue};
use vstd::prelude::*;

verus! {

/// Documentation generation for a module failed.
#[derive(Debug)]
pub enum Error {
    /// The ordering directive of an item could not be used.
    ParseOrderMetadata(String),
    /// The module metadata could not be read.
    ParseModuleMetadata(String),
}

impl Error {
    /// The description carried by the error.
    pub fn message(&self) -> (r: &String)
        ensures
            r@ == match self {
                Error::ParseOrderMetadata(m) => m@,
                Error::ParseModuleMetadata(m) => m@,
            },
    {
        match self {
            Error::ParseOrderMetadata(m) => m,
            Error::ParseModuleMetadata(m) => m,
        }
    }
}

/// Module documentation parsed from the definitions exported by an engine.
#[derive(Debug)]
pub struct Documentation {
    /// Complete path to the module.
    pub namespace: String,
    /// Name of the module.
    pub name: String,
    /// Sub-modules.
    pub sub_modules: Vec<Documentation>,
    /// Module documentation as raw text.
    pub documentation: String,
    /// Documentation items found in the module.
    pub items: Vec<Item>,
}

/// Intermediary representation of one level of the engine's metadata.
#[derive(Debug)]
pub struct ModuleMetadata {
    /// Optional documentation for the module.
    pub doc: Option<String>,
    /// Functions metadata, if any.
    pub functions: Option<Vec<Metadata>>,
    /// Custom types metadata, if any.
    pub custom_types: Option<Vec<CustomTypesMetadata>>,
    /// Sub-modules, if any, in declaration order.
    pub modules: Option<Vec<(String, ModuleMetadata)>>,
}

pub ghost struct ModuleMetadataView {
    pub doc: Option<Seq<char>>,
    pub functions: Option<Seq<MetadataView>>,
    pub custom_types: Option<Seq<CustomTypesMetadataView>>,
    pub modules: Option<Seq<(Seq<char>, ModuleMetadataView)>>,
}

/// The mathematical value of one metadata level.
pub open spec fn module_metadata_view(m: ModuleMetadata) -> ModuleMetadataView
    decreases m,
{
    ModuleMetadataView {
        doc: m.doc.deep_view(),
        functions: match m.functions {
            Some(fs) => Some(fs.deep_view()),
            None => None,
        },
        custom_types: match m.custom_types {
            Some(ts) => Some(ts.deep_view()),
            None => None,
        },
        modules: match m.modules {
            Some(ms) => Some(submodules_view(ms@)),
            None => None,
        },
    }
}

pub open spec fn submodules_view(ms: Seq<(String, ModuleMetadata)>) -> Seq<
    (Seq<char>, ModuleMetadataView),
>
    decreases ms,
{
    if ms.len() == 0 {
        Seq::empty()
    } else {
        seq![(ms[0].0@, module_metadata_view(ms[0].1))] + submodules_view(ms.drop_first())
    }
}

impl DeepView for ModuleMetadata {
    type V = ModuleMetadataView;

    open spec fn deep_view(&self) -> ModuleMetadataView {
        module_metadata_view(*self)
    }
}

/// The decoded string of a member that must be a string.
pub open spec fn spec_str_field(obj: Seq<(String, JsonValue)>, key: Seq<char>) -> Option<Seq<char>> {
    match spec_obj_get(obj, key) {
        Some(i) => match obj[i].1 {
            JsonValue::Str(s) => Some(s@),
            _ => None,
        },
        None => None,
    }
}

/// The decoded value of a member that may be absent, null, or a string:
/// `Some(None)` for absent or null, `Some(Some(s))` for a string, `None` for
/// a value of the wrong type.
pub open spec fn spec_opt_str_field(obj: Seq<(String, JsonValue)>, key: Seq<char>) -> Option<
    Option<Seq<char>>,
> {
    match spec_obj_get(obj, key) {
        Some(i) => match obj[i].1 {
            JsonValue::Str(s) => Some(Some(s@)),
            JsonValue::Null => Some(None),
            _ => None,
        },
        None => Some(None),
    }
}

/// The decoded value of a member that must be an unsigned number.
pub open spec fn spec_num_field(obj: Seq<(String, JsonValue)>, key: Seq<char>) -> Option<u64> {
    match spec_obj_get(obj, key) {
        Some(i) => match obj[i].1 {
            JsonValue::Num(n) => Some(n),
            _ => None,
        },
        None => None,
    }
}

/// The decoded strings of a member that may be absent, null, or an array of
/// strings.
pub open spec fn spec_opt_str_arr_field(obj: Seq<(String, JsonValue)>, key: Seq<char>) -> Option<
    Option<Seq<Seq<char>>>,
> {
    match spec_obj_get(obj, key) {
        Some(i) => match obj[i].1 {
            JsonValue::Arr(items) => {
                if forall|j: int| 0 <= j < items@.len() ==> (#[trigger] items@[j]) is Str {
                    Some(Some(Seq::new(items@.len(), |j: int| items@[j]->Str_0@)))
                } else {
                    None
                }
            },
            JsonValue::Null => Some(None),
            _ => None,
        },
        None => Some(None),
    }
}

/// The decoded form of one parameter descriptor: its optional name and type.
pub open spec fn spec_decode_param(v: JsonValue) -> Option<ParamView> {
    match v {
        JsonValue::Obj(members) => {
            match (spec_opt_str_field(members@, "name"@), spec_opt_str_field(members@, "type"@)) {
                (Some(n), Some(t)) => Some(ParamView { name: n, ty: t }),
                _ => None,
            }
        },
        _ => None,
    }
}

/// The decoded form of one function record, or `None` where the value does
/// not fit the schema.
pub open spec fn spec_decode_function(v: JsonValue) -> Option<MetadataView> {
    match v {
        JsonValue::Obj(members) => {
            let obj = members@;
            if spec_str_field(obj, "access"@) is Some && spec_num_field(obj, "baseHash"@) is Some
                && spec_num_field(obj, "fullHash"@) is Some && spec_str_field(obj, "name"@) is Some
                && spec_str_field(obj, "namespace"@) is Some && spec_num_field(obj, "numParams"@)
                is Some && spec_str_field(obj, "signature"@) is Some && spec_num_field(
                obj,
                "numParams"@,
            )->Some_0 <= usize::MAX && spec_decode_params_field(obj) is Some
                && spec_opt_str_field(obj, "returnType"@) is Some && spec_opt_str_arr_field(
                obj,
                "docComments"@,
            ) is Some {
                Some(
                    MetadataView {
                        access: spec_str_field(obj, "access"@)->Some_0,
                        base_hash: spec_num_field(obj, "baseHash"@)->Some_0 as u128,
                        full_hash: spec_num_field(obj, "fullHash"@)->Some_0 as u128,
                        name: spec_str_field(obj, "name"@)->Some_0,
                        namespace: spec_str_field(obj, "namespace"@)->Some_0,
                        num_params: spec_num_field(obj, "numParams"@)->Some_0 as usize,
                        params: spec_decode_params_field(obj)->Some_0,
                        signature: spec_str_field(obj, "signature"@)->Some_0,
                        return_type: spec_opt_str_field(obj, "returnType"@)->Some_0,
                        doc_comments: spec_opt_str_arr_field(obj, "docComments"@)->Some_0,
                    },
                )
            } else {
                None
            }
        },
        _ => None,
    }
}

/// The decoded parameter list of a function record: absent or null gives
/// none; an array in which every entry decodes gives the decoded sequence.
pub open spec fn spec_decode_params_field(obj: Seq<(String, JsonValue)>) -> Option<
    Option<Seq<ParamView>>,
> {
    match spec_obj_get(obj, "params"@) {
        Some(i) => match obj[i].1 {
            JsonValue::Arr(items) => {
                if forall|j: int| 0 <= j < items@.len() ==> spec_decode_param(#[trigger] items@[j])
                    is Some {
                    Some(Some(Seq::new(items@.len(), |j: int| spec_decode_param(items@[j])->Some_0)))
                } else {
                    None
                }
            },
            JsonValue::Null => Some(None),
            _ => None,
        },
        None => Some(None),
    }
}

/// The decoded form of one custom type record.
pub open spec fn spec_decode_custom_type(v: JsonValue) -> Option<CustomTypesMetadataView> {
    match v {
        JsonValue::Obj(members) => {
            let obj = members@;
            if spec_str_field(obj, "typeName"@) is Some && spec_str_field(obj, "displayName"@)
                is Some && spec_opt_str_arr_field(obj, "docComments"@) is Some {
                Some(
                    CustomTypesMetadataView {
                        type_path: spec_str_field(obj, "typeName"@)->Some_0,
                        display_name: spec_str_field(obj, "displayName"@)->Some_0,
                        doc_comments: spec_opt_str_arr_field(obj, "docComments"@)->Some_0,
                    },
                )
            } else {
                None
            }
        },
        _ => None,
    }
}

/// The decoded form of one metadata level, or `None` where the value does not
/// fit the schema; the whole subtree decodes or nothing does.
pub open spec fn spec_decode_module(v: JsonValue) -> Option<ModuleMetadataView>
    decreases v,
{
    match v {
        JsonValue::Obj(members) => {
            let obj = members@;
            let doc = spec_opt_str_field(obj, "doc"@);
            let functions = spec_decode_functions_field(obj);
            let custom_types = spec_decode_custom_types_field(obj);
            let modules = spec_decode_modules_field(obj);
            if doc is Some && functions is Some && custom_types is Some && modules is Some {
                Some(
                    ModuleMetadataView {
                        doc: doc->Some_0,
                        functions: functions->Some_0,
                        custom_types: custom_types->Some_0,
                        modules: modules->Some_0,
                    },
                )
            } else {
                None
            }
        },
        _ => None,
    }
}

pub open spec fn spec_decode_functions_field(obj: Seq<(String, JsonValue)>) -> Option<
    Option<Seq<MetadataView>>,
> {
    match spec_obj_get(obj, "functions"@) {
        Some(i) => match obj[i].1 {
            JsonValue::Arr(items) => {
                if forall|j: int|
                    0 <= j < items@.len() ==> spec_decode_function(#[trigger] items@[j]) is Some {
                    Some(
                        Some(Seq::new(items@.len(), |j: int| spec_decode_function(items@[j])->Some_0)),
                    )
                } else {
                    None
                }
            },
            JsonValue::Null => Some(None),
            _ => None,
        },
        None => Some(None),
    }
}

pub open spec fn spec_decode_custom_types_field(obj: Seq<(String, JsonValue)>) -> Option<
    Option<Seq<CustomTypesMetadataView>>,
> {
    match spec_obj_get(obj, "customTypes"@) {
        Some(i) => match obj[i].1 {
            JsonValue::Arr(items) => {
                if forall|j: int|
                    0 <= j < items@.len() ==> spec_decode_custom_type(#[trigger] items@[j])
                        is Some {
                    Some(
                        Some(
                            Seq::new(
                                items@.len(),
                                |j: int| spec_decode_custom_type(items@[j])->Some_0,
                            ),
                        ),
                    )
                } else {
                    None
                }
            },
            JsonValue::Null => Some(None),
            _ => None,
        },
        None => Some(None),
    }
}

/// The decoded sub-modules of a metadata level: the members of the `modules`
/// object, each of which must itself decode, in declaration order.
pub open spec fn spec_decode_modules_field(obj: Seq<(String, JsonValue)>) -> Option<
    Option<Seq<(Seq<char>, ModuleMetadataView)>>,
>
    decreases obj,
{
    match spec_obj_get(obj, "modules"@) {
        Some(i) => {
            if 0 <= i < obj.len() {
                match obj[i].1 {
                    JsonValue::Obj(subs) => {
                        match spec_decode_submodule_seq(subs@) {
                            Some(s) => Some(Some(s)),
                            None => None,
                        }
                    },
                    JsonValue::Null => Some(None),
                    _ => None,
                }
            } else {
                None
            }
        },
        None => Some(None),
    }
}

/// Each named sub-module value decoded in order.
pub open spec fn spec_decode_submodule_seq(subs: Seq<(String, JsonValue)>) -> Option<
    Seq<(Seq<char>, ModuleMetadataView)>,
>
    decreases subs,
{
    if subs.len() == 0 {
        Some(Seq::empty())
    } else {
        match spec_decode_module(subs[0].1) {
            Some(m) => match spec_decode_submodule_seq(subs.drop_first()) {
                Some(rest) => Some(seq![(subs[0].0@, m)] + rest),
                None => None,
            },
            None => None,
        }
    }
}

/// The member named `key` of the object `v` is the array `items`.
pub open spec fn member_is_arr(v: JsonValue, key: Seq<char>, items: Vec<JsonValue>) -> bool {
    &&& v is Obj
    &&& spec_obj_get(v->Obj_0@, key) is Some
    &&& v->Obj_0@[spec_obj_get(v->Obj_0@, key)->Some_0].1 == JsonValue::Arr(items)
}

/// The member named `key` of the object `v` is the object `subs`.
pub open spec fn member_is_obj(v: JsonValue, key: Seq<char>, subs: Vec<(String, JsonValue)>) -> bool {
    &&& v is Obj
    &&& spec_obj_get(v->Obj_0@, key) is Some
    &&& v->Obj_0@[spec_obj_get(v->Obj_0@, key)->Some_0].1 == JsonValue::Obj(subs)
}

fn str_field(v: &JsonValue, key: &str) -> (r: Option<String>)
    requires
        (*v) is Obj,
    ensures
        match spec_str_field((*v)->Obj_0@, key@) {
            Some(s) => r is Some && r->Some_0@ == s,
            None => r is None,
        },
{
    match v.get(key) {
        Some(JsonValue::Str(s)) => Some(s.clone()),
        _ => None,
    }
}

fn opt_str_field(v: &JsonValue, key: &str) -> (r: Option<Option<String>>)
    requires
        (*v) is Obj,
    ensures
        match spec_opt_str_field((*v)->Obj_0@, key@) {
            Some(s) => r is Some && r->Some_0.deep_view() == s,
            None => r is None,
        },
{
    match v.get(key) {
        Some(JsonValue::Str(s)) => Some(Some(s.clone())),
        Some(JsonValue::Null) => Some(None),
        Some(_) => None,
        None => Some(None),
    }
}

fn num_field(v: &JsonValue, key: &str) -> (r: Option<u64>)
    requires
        (*v) is Obj,
    ensures
        r == spec_num_field((*v)->Obj_0@, key@),
{
    match v.get(key) {
        Some(JsonValue::Num(n)) => Some(*n),
        _ => None,
    }
}

fn opt_str_arr_field(v: &JsonValue, key: &str) -> (r: Option<Option<Vec<String>>>)
    requires
        (*v) is Obj,
    ensures
        match spec_opt_str_arr_field((*v)->Obj_0@, key@) {
            Some(s) => r is Some && (match s {
                Some(strings) => r->Some_0 is Some && r->Some_0->Some_0.deep_view() == strings,
                None => r->Some_0 is None,
            }),
            None => r is None,
        },
{
    match v.get(key) {
        Some(val) => {
            match val {
                JsonValue::Arr(items) => {
                    let mut out: Vec<String> = Vec::new();
                    let mut i: usize = 0;
                    while i < items.len()
                        invariant
                            member_is_arr(*v, key@, *items),
                            0 <= i <= items@.len(),
                            out.deep_view().len() == i,
                            forall|j: int|
                                0 <= j < i ==> (#[trigger] items@[j]) is Str
                                    && out.deep_view()[j] == items@[j]->Str_0@,
                        decreases items@.len() - i,
                    {
                        let ghost prev = out.deep_view();
                        match &items[i] {
                            JsonValue::Str(s) => {
                                out.push(s.clone());
                                proof {
                                    assert(out.deep_view() =~= prev.push(items@[i as int]->Str_0@));
                                }
                            },
                            _ => {
                                return None;
                            },
                        }
                        i += 1;
                    }
                    proof {
                        assert(out.deep_view() =~= Seq::new(
                            items@.len(),
                            |j: int| items@[j]->Str_0@,
                        ));
                    }
                    Some(Some(out))
                },
                JsonValue::Null => Some(None),
                _ => None,
            }
        },
        None => Some(None),
    }
}

fn decode_param(v: &JsonValue) -> (r: Option<Param>)
    ensures
        match spec_decode_param(*v) {
            Some(p) => r is Some && r->Some_0.deep_view() == p,
            None => r is None,
        },
{
    match v {
        JsonValue::Obj(_) => {
            let name = match opt_str_field(v, "name") {
                Some(n) => n,
                None => {
                    return None;
                },
            };
            let ty = match opt_str_field(v, "type") {
                Some(t) => t,
                None => {
                    return None;
                },
            };
            Some(Param { name, ty })
        },
        _ => None,
    }
}

fn decode_params_field(v: &JsonValue) -> (r: Option<Option<Vec<Param>>>)
    requires
        (*v) is Obj,
    ensures
        match spec_decode_params_field((*v)->Obj_0@) {
            Some(s) => r is Some && (match s {
                Some(ps) => r->Some_0 is Some && r->Some_0->Some_0.deep_view() == ps,
                None => r->Some_0 is None,
            }),
            None => r is None,
        },
{
    match v.get("params") {
        Some(val) => {
            match val {
                JsonValue::Arr(items) => {
                    let mut out: Vec<Param> = Vec::new();
                    let mut i: usize = 0;
                    while i < items.len()
                        invariant
                            member_is_arr(*v, "params"@, *items),
                            0 <= i <= items@.len(),
                            out.deep_view().len() == i,
                            forall|j: int|
                                0 <= j < i ==> spec_decode_param(#[trigger] items@[j]) is Some
                                    && out.deep_view()[j] == spec_decode_param(items@[j])->Some_0,
                        decreases items@.len() - i,
                    {
                        let ghost prev = out.deep_view();
                        match decode_param(&items[i]) {
                            Some(p) => {
                                let ghost pv = p.deep_view();
                                out.push(p);
                                proof {
                                    assert(out.deep_view() =~= prev.push(pv));
                                }
                            },
                            None => {
                                return None;
                            },
                        }
                        i += 1;
                    }
                    proof {
                        assert(out.deep_view() =~= Seq::new(
                            items@.len(),
                            |j: int| spec_decode_param(items@[j])->Some_0,
                        ));
                    }
                    Some(Some(out))
                },
                JsonValue::Null => Some(None),
                _ => None,
            }
        },
        None => Some(None),
    }
}

fn decode_function(v: &JsonValue) -> (r: Option<Metadata>)
    ensures
        match spec_decode_function(*v) {
            Some(m) => r is Some && r->Some_0.deep_view() == m,
            None => r is None,
        },
{
    match v {
        JsonValue::Obj(_) => {
            let access = match str_field(v, "access") {
                Some(s) => s,
                None => {
                    return None;
                },
            };
            let base_hash = match num_field(v, "baseHash") {
                Some(n) => n,
                None => {
                    return None;
                },
            };
            let full_hash = match num_field(v, "fullHash") {
                Some(n) => n,
                None => {
                    return None;
                },
            };
            let name = match str_field(v, "name") {
                Some(s) => s,
                None => {
                    return None;
                },
            };
            let namespace = match str_field(v, "namespace") {
                Some(s) => s,
                None => {
                    return None;
                },
            };
            let num_params_raw = match num_field(v, "numParams") {
                Some(n) => n,
                None => {
                    return None;
                },
            };
            if num_params_raw > usize::MAX as u64 {
                return None;
            }
            let signature = match str_field(v, "signature") {
                Some(s) => s,
                None => {
                    return None;
                },
            };
            let params = match decode_params_field(v) {
                Some(p) => p,
                None => {
                    return None;
                },
            };
            let return_type = match opt_str_field(v, "returnType") {
                Some(t) => t,
                None => {
                    return None;
                },
            };
            let doc_comments = match opt_str_arr_field(v, "docComments") {
                Some(d) => d,
                None => {
                    return None;
                },
            };
            Some(
                Metadata {
                    access,
                    base_hash: base_hash as u128,
                    full_hash: full_hash as u128,
                    name,
                    namespace,
                    num_params: num_params_raw as usize,
                    params,
                    signature,
                    return_type,
                    doc_comments,
                },
            )
        },
        _ => None,
    }
}

fn decode_custom_type(v: &JsonValue) -> (r: Option<CustomTypesMetadata>)
    ensures
        match spec_decode_custom_type(*v) {
            Some(m) => r is Some && r->Some_0.deep_view() == m,
            None => r is None,
        },
{
    match v {
        JsonValue::Obj(_) => {
            let type_path = match str_field(v, "typeName") {
                Some(s) => s,
                None => {
                    return None;
                },
            };
            let display_name = match str_field(v, "displayName") {
                Some(s) => s,
                None => {
                    return None;
                },
            };
            let doc_comments = match opt_str_arr_field(v, "docComments") {
                Some(d) => d,
                None => {
                    return None;
                },
            };
            Some(CustomTypesMetadata { type_path, display_name, doc_comments })
        },
        _ => None,
    }
}

proof fn lemma_submodules_view_push(ms: Seq<(String, ModuleMetadata)>, x: (String, ModuleMetadata))
    ensures
        submodules_view(ms.push(x)) == submodules_view(ms).push((x.0@, module_metadata_view(x.1))),
    decreases ms.len(),
{
    if ms.len() == 0 {
        assert(ms.push(x) =~= seq![x]);
        assert(seq![x].drop_first() =~= Seq::<(String, ModuleMetadata)>::empty());
        assert(submodules_view(Seq::<(String, ModuleMetadata)>::empty()) =~= Seq::<
            (Seq<char>, ModuleMetadataView),
        >::empty());
        assert(seq![x][0] == x);
        assert(submodules_view(seq![x]) == seq![(x.0@, module_metadata_view(x.1))] + Seq::<
            (Seq<char>, ModuleMetadataView),
        >::empty());
        assert(submodules_view(seq![x]) =~= submodules_view(ms).push(
            (x.0@, module_metadata_view(x.1)),
        ));
    } else {
        lemma_submodules_view_push(ms.drop_first(), x);
        assert(ms.push(x).drop_first() =~= ms.drop_first().push(x));
        assert(ms.push(x)[0] == ms[0]);
        assert(submodules_view(ms.push(x)) =~= submodules_view(ms).push(
            (x.0@, module_metadata_view(x.1)),
        ));
    }
}

impl ModuleMetadata {
    /// Decode one level of the engine's metadata, sub-modules included:
    /// either the whole subtree fits the schema and decodes, or the decode
    /// fails with an error and nothing is returned.
    pub fn decode(v: &JsonValue) -> (r: Result<ModuleMetadata, Error>)
        ensures
            match spec_decode_module(*v) {
                Some(m) => r is Ok && r->Ok_0.deep_view() == m,
                None => r is Err && r->Err_0 is ParseModuleMetadata,
            },
        decreases *v,
    {
        match v {
            JsonValue::Obj(members) => {
                let doc = match opt_str_field(v, "doc") {
                    Some(d) => d,
                    None => {
                        return Err(
                            Error::ParseModuleMetadata(
                                String::from_str("module documentation must be text"),
                            ),
                        );
                    },
                };
                let functions: Option<Vec<Metadata>> = match v.get("functions") {
                    Some(val) => {
                        match val {
                            JsonValue::Arr(items) => {
                                let mut out: Vec<Metadata> = Vec::new();
                                let mut i: usize = 0;
                                while i < items.len()
                                    invariant
                                        member_is_arr(*v, "functions"@, *items),
                                        0 <= i <= items@.len(),
                                        out.deep_view().len() == i,
                                        forall|j: int|
                                            0 <= j < i ==> spec_decode_function(
                                                #[trigger] items@[j],
                                            ) is Some && out.deep_view()[j] == spec_decode_function(
                                                items@[j],
                                            )->Some_0,
                                    decreases items@.len() - i,
                                {
                                    let ghost prev = out.deep_view();
                                    match decode_function(&items[i]) {
                                        Some(m) => {
                                            let ghost mv = m.deep_view();
                                            out.push(m);
                                            proof {
                                                assert(out.deep_view() =~= prev.push(mv));
                                            }
                                        },
                                        None => {
                                            return Err(
                                                Error::ParseModuleMetadata(
                                                    String::from_str(
                                                        "malformed function metadata record",
                                                    ),
                                                ),
                                            );
                                        },
                                    }
                                    i += 1;
                                }
                                proof {
                                    assert(out.deep_view() =~= Seq::new(
                                        items@.len(),
                                        |j: int| spec_decode_function(items@[j])->Some_0,
                                    ));
                                }
                                Some(out)
                            },
                            JsonValue::Null => None,
                            _ => {
                                return Err(
                                    Error::ParseModuleMetadata(
                                        String::from_str("function metadata must be an array"),
                                    ),
                                );
                            },
                        }
                    },
                    None => None,
                };
                proof {
                    let fspec = spec_decode_functions_field((*v)->Obj_0@);
                    if functions is Some {
                        assert(fspec is Some && fspec->Some_0 is Some);
                        assert(functions->Some_0.deep_view() =~= fspec->Some_0->Some_0);
                    } else {
                        assert(fspec == Some(None::<Seq<MetadataView>>));
                    }
                }
                let custom_types: Option<Vec<CustomTypesMetadata>> = match v.get("customTypes") {
                    Some(val) => {
                        match val {
                            JsonValue::Arr(items) => {
                                let mut out: Vec<CustomTypesMetadata> = Vec::new();
                                let mut i: usize = 0;
                                while i < items.len()
                                    invariant
                                        member_is_arr(*v, "customTypes"@, *items),
                                        0 <= i <= items@.len(),
                                        out.deep_view().len() == i,
                                        forall|j: int|
                                            0 <= j < i ==> spec_decode_custom_type(
                                                #[trigger] items@[j],
                                            ) is Some && out.deep_view()[j]
                                                == spec_decode_custom_type(items@[j])->Some_0,
                                    decreases items@.len() - i,
                                {
                                    let ghost prev = out.deep_view();
                                    match decode_custom_type(&items[i]) {
                                        Some(m) => {
                                            let ghost mv = m.deep_view();
                                            out.push(m);
                                            proof {
                                                assert(out.deep_view() =~= prev.push(mv));
                                            }
                                        },
                                        None => {
                                            return Err(
                                                Error::ParseModuleMetadata(
                                                    String::from_str(
                                                        "malformed custom type metadata record",
                                                    ),
                                                ),
                                            );
                                        },
                                    }
                                    i += 1;
                                }
                                proof {
                                    assert(out.deep_view() =~= Seq::new(
                                        items@.len(),
                                        |j: int| spec_decode_custom_type(items@[j])->Some_0,
                                    ));
                                }
                                Some(out)
                            },
                            JsonValue::Null => None,
                            _ => {
                                return Err(
                                    Error::ParseModuleMetadata(
                                        String::from_str("custom type metadata must be an array"),
                                    ),
                                );
                            },
                        }
                    },
                    None => None,
                };
                proof {
                    let tspec = spec_decode_custom_types_field((*v)->Obj_0@);
                    if custom_types is Some {
                        assert(tspec is Some && tspec->Some_0 is Some);
                        assert(custom_types->Some_0.deep_view() =~= tspec->Some_0->Some_0);
                    } else {
                        assert(tspec == Some(None::<Seq<CustomTypesMetadataView>>));
                    }
                }
                let modules: Option<Vec<(String, ModuleMetadata)>> = match v.get("modules") {
                    Some(val) => {
                        match val {
                            JsonValue::Obj(subs) => {
                                let mut out: Vec<(String, ModuleMetadata)> = Vec::new();
                                let mut i: usize = 0;
                                proof {
                                    broadcast use vstd::std_specs::vec::axiom_vec_index_decreases;

                                    assert(subs@.skip(0) =~= subs@);
                                    // The sub-module object lies inside the enclosing value.
                                    let obj = (*v)->Obj_0;
                                    let k = spec_obj_get(obj@, "modules"@)->Some_0;
                                    crate::json::lemma_obj_get_bounds(obj@, "modules"@);
                                    assert(decreases_to!(*v => obj));
                                    assert(decreases_to!(obj => obj[k]));
                                    assert(decreases_to!(obj[k] => obj[k].1));
                                    assert(obj[k].1 == JsonValue::Obj(*subs));
                                    assert(decreases_to!(obj[k].1 => (obj[k].1)->Obj_0));
                                    assert(decreases_to!(*v => *subs));
                                }
                                while i < subs.len()
                                    invariant
                                        member_is_obj(*v, "modules"@, *subs),
                                        0 <= i <= subs@.len(),
                                        (match spec_decode_submodule_seq(subs@.skip(i as int)) {
                                            Some(rest) => spec_decode_submodule_seq(subs@) == Some(
                                                submodules_view(out@) + rest,
                                            ),
                                            None => spec_decode_submodule_seq(subs@) is None,
                                        }),
                                        decreases_to!(*v => *subs),
                                    decreases subs@.len() - i,
                                {
                                    proof {
                                        broadcast use vstd::std_specs::vec::axiom_vec_index_decreases;

                                        assert(subs@.skip(i as int)[0] == subs@[i as int]);
                                        assert(subs@.skip(i as int).drop_first() =~= subs@.skip(
                                            i + 1,
                                        ));
                                        assert(decreases_to!(*subs => subs[i as int]));
                                    }
                                    let sub = match Self::decode(&subs[i].1) {
                                        Ok(m) => m,
                                        Err(e) => {
                                            return Err(e);
                                        },
                                    };
                                    let ghost prev = out@;
                                    let entry = (subs[i].0.clone(), sub);
                                    let ghost ev = (entry.0@, module_metadata_view(entry.1));
                                    out.push(entry);
                                    proof {
                                        lemma_submodules_view_push(prev, out@[out@.len() - 1]);
                                        assert(out@.drop_last() =~= prev);
                                        assert(out@ =~= prev.push(out@[out@.len() - 1]));
                                        assert(submodules_view(out@) =~= submodules_view(
                                            prev,
                                        ).push(ev));
                                        assert(ev == (
                                            subs@[i as int].0@,
                                            spec_decode_module(subs@[i as int].1)->Some_0,
                                        ));
                                        match spec_decode_submodule_seq(subs@.skip(i + 1)) {
                                            Some(r0) => {
                                                assert(spec_decode_submodule_seq(
                                                    subs@.skip(i as int),
                                                ) == Some(seq![ev] + r0));
                                                assert(submodules_view(prev).push(ev) + r0
                                                    =~= submodules_view(prev) + (seq![ev] + r0));
                                            },
                                            None => {
                                                assert(spec_decode_submodule_seq(
                                                    subs@.skip(i as int),
                                                ) is None);
                                            },
                                        }
                                    }
                                    i += 1;
                                }
                                proof {
                                    assert(spec_decode_submodule_seq(subs@.skip(i as int))
                                        == Some(Seq::<(Seq<char>, ModuleMetadataView)>::empty()));
                                    assert(submodules_view(out@) + Seq::<
                                        (Seq<char>, ModuleMetadataView),
                                    >::empty() =~= submodules_view(out@));
                                }
                                Some(out)
                            },
                            JsonValue::Null => None,
                            _ => {
                                return Err(
                                    Error::ParseModuleMetadata(
                                        String::from_str("sub-modules must be an object"),
                                    ),
                                );
                            },
                        }
                    },
                    None => None,
                };
                let r = ModuleMetadata { doc, functions, custom_types, modules };
                proof {
                    let obj = (*v)->Obj_0@;
                    crate::json::lemma_obj_get_bounds(obj, "modules"@);
                    let msspec = spec_decode_modules_field(obj);
                    if modules is Some {
                        assert(msspec is Some && msspec->Some_0 is Some);
                        assert(submodules_view(modules->Some_0@) =~= msspec->Some_0->Some_0);
                    } else {
                        assert(msspec == Some(
                            None::<Seq<(Seq<char>, ModuleMetadataView)>>,
                        ));
                    }
                    assert(spec_decode_module(*v) is Some);
                    let mv = spec_decode_module(*v)->Some_0;
                    assert(module_metadata_view(r).doc == mv.doc);
                    assert(module_metadata_view(r).functions == mv.functions);
                    assert(module_metadata_view(r).custom_types == mv.custom_types);
                    assert(module_metadata_view(r).modules == mv.modules);
                }
                Ok(r)
            },
            _ => Err(
                Error::ParseModuleMetadata(String::from_str("module metadata must be an object")),
            ),
        }
    }
}

/// The normalized name a function record is grouped under: accessor and
/// indexer prefixes resolved away.
pub open spec fn spec_norm_name(m: MetadataView) -> Seq<char> {
    crate::function::spec_def_name(crate::function::spec_fn_definition(m))
}

/// The distinct normalized names of the records, in discovery order.
pub open spec fn spec_group_names(fs: Seq<MetadataView>) -> Seq<Seq<char>>
    decreases fs.len(),
{
    if fs.len() == 0 {
        Seq::empty()
    } else {
        let prev = spec_group_names(fs.drop_last());
        if prev.contains(spec_norm_name(fs.last())) {
            prev
        } else {
            prev.push(spec_norm_name(fs.last()))
        }
    }
}

/// The records grouped under one name, in discovery order.
pub open spec fn spec_group_members(fs: Seq<MetadataView>, n: Seq<char>) -> Seq<MetadataView> {
    fs.filter(|m: MetadataView| spec_norm_name(m) == n)
}

fn contains_string(names: &Vec<String>, s: &str) -> (r: bool)
    ensures
        r == names.deep_view().contains(s@),
{
    let mut j: usize = 0;
    while j < names.len()
        invariant
            0 <= j <= names.len(),
            names.deep_view().len() == names.len(),
            forall|k: int| 0 <= k < j ==> names.deep_view()[k] != s@,
        decreases names.len() - j,
    {
        if crate::text::str_eq(names[j].as_str(), s) {
            assert(names.deep_view()[j as int] == s@);
            return true;
        }
        j += 1;
    }
    proof {
        if names.deep_view().contains(s@) {
            let w = choose|w: int|
                0 <= w < names.deep_view().len() && names.deep_view()[w] == s@;
        }
    }
    false
}

/// Group the records of one module level by their normalized name: the group
/// keys appear in discovery order, no two groups share a key, and each group
/// holds its overloads in discovery order.
pub fn group_functions(functions: &Vec<Metadata>) -> (r: Vec<(String, Vec<Metadata>)>)
    ensures
        r@.len() == spec_group_names(functions.deep_view()).len(),
        forall|i: int|
            0 <= i < r@.len() ==> (#[trigger] r@[i].0@) == spec_group_names(
                functions.deep_view(),
            )[i],
        forall|i: int|
            0 <= i < r@.len() ==> (#[trigger] r@[i].1.deep_view()) == spec_group_members(
                functions.deep_view(),
                r@[i].0@,
            ),
{
    let ghost fs = functions.deep_view();
    let mut names: Vec<String> = Vec::new();
    let mut i: usize = 0;
    proof {
        assert(fs.take(0) =~= Seq::<MetadataView>::empty());
    }
    while i < functions.len()
        invariant
            fs == functions.deep_view(),
            fs.len() == functions.len(),
            0 <= i <= fs.len(),
            names.deep_view() == spec_group_names(fs.take(i as int)),
        decreases fs.len() - i,
    {
        let name = functions[i].generate_function_definition().name();
        proof {
            assert(name@ == spec_norm_name(fs[i as int]));
            assert(fs.take(i + 1).drop_last() =~= fs.take(i as int));
            assert(fs.take(i + 1).last() == fs[i as int]);
        }
        let ghost prev = names.deep_view();
        if !contains_string(&names, name.as_str()) {
            names.push(name);
            proof {
                assert(names.deep_view() =~= prev.push(spec_norm_name(fs[i as int])));
            }
        }
        i += 1;
    }
    proof {
        assert(fs.take(fs.len() as int) =~= fs);
    }
    let mut groups: Vec<(String, Vec<Metadata>)> = Vec::new();
    let mut g: usize = 0;
    while g < names.len()
        invariant
            fs == functions.deep_view(),
            fs.len() == functions.len(),
            names.deep_view() == spec_group_names(fs),
            names.deep_view().len() == names.len(),
            0 <= g <= names.len(),
            groups@.len() == g,
            forall|k: int|
                0 <= k < g ==> (#[trigger] groups@[k].0@) == spec_group_names(fs)[k],
            forall|k: int|
                0 <= k < g ==> (#[trigger] groups@[k].1.deep_view()) == spec_group_members(
                    fs,
                    groups@[k].0@,
                ),
        decreases names.len() - g,
    {
        let ghost key = names.deep_view()[g as int];
        let mut members: Vec<Metadata> = Vec::new();
        let mut i2: usize = 0;
        proof {
            assert(fs.take(0) =~= Seq::<MetadataView>::empty());
            assert(Seq::<MetadataView>::empty().filter(
                |m: MetadataView| spec_norm_name(m) == key,
            ) =~= Seq::<MetadataView>::empty()) by {
                reveal(Seq::filter);
            }
        }
        while i2 < functions.len()
            invariant
                fs == functions.deep_view(),
                fs.len() == functions.len(),
                names.deep_view().len() == names.len(),
                g < names.len(),
                key == names.deep_view()[g as int],
                0 <= i2 <= fs.len(),
                members.deep_view() == fs.take(i2 as int).filter(
                    |m: MetadataView| spec_norm_name(m) == key,
                ),
            decreases fs.len() - i2,
        {
            let nm = functions[i2].generate_function_definition().name();
            proof {
                assert(nm@ == spec_norm_name(fs[i2 as int]));
                assert(fs.take(i2 + 1) =~= fs.take(i2 as int).push(fs[i2 as int]));
                fs.take(i2 as int).lemma_filter_push(
                    fs[i2 as int],
                    |m: MetadataView| spec_norm_name(m) == key,
                );
            }
            let ghost prevm = members.deep_view();
            if crate::text::str_eq(nm.as_str(), names[g].as_str()) {
                let c = functions[i2].clone();
                let ghost cv = c.deep_view();
                members.push(c);
                proof {
                    assert(members.deep_view() =~= prevm.push(cv));
                }
            }
            i2 += 1;
        }
        proof {
            assert(fs.take(fs.len() as int) =~= fs);
        }
        let ghost prevg = groups@;
        groups.push((names[g].clone(), members));
        proof {
            assert(groups@ =~= prevg.push(groups@[groups@.len() - 1]));
        }
        g += 1;
    }
    groups
}

/// The module documentation text: the raw comment with marker tokens and
/// hidden test code removed, or empty where there is none.
pub open spec fn spec_module_doc_text(m: ModuleMetadataView) -> Seq<char> {
    match m.doc {
        Some(d) => crate::doc_item::spec_remove_test_code(
            crate::doc_item::spec_fmt_doc_comments(d),
        ),
        None => Seq::empty(),
    }
}

/// The documentation item of one custom type, `None` where it is
/// undocumented, an error where a required ordering directive is missing or
/// malformed.
pub open spec fn spec_type_item(
    t: CustomTypesMetadataView,
    order: crate::export::ItemsOrder,
) -> Result<Option<crate::item::ItemView>, ()> {
    if t.doc_comments is None {
        Ok(None)
    } else {
        match order {
            crate::export::ItemsOrder::Alphabetical => Ok(
                Some(crate::item::ItemView::CustomType { metadata: t, index: 0 }),
            ),
            crate::export::ItemsOrder::ByIndex => match crate::doc_item::spec_directive_value(
                t.doc_comments->Some_0,
            ) {
                None => Err(()),
                Some(v) => {
                    if crate::doc_item::spec_valid_index(v) {
                        Ok(
                            Some(
                                crate::item::ItemView::CustomType {
                                    metadata: t,
                                    index: crate::text::dec_value(v) as usize,
                                },
                            ),
                        )
                    } else {
                        Err(())
                    }
                },
            },
        }
    }
}

/// The documentation item of one function group, `None` where the group is
/// anonymous or wholly undocumented.
pub open spec fn spec_group_item(
    name: Seq<char>,
    ms: Seq<MetadataView>,
    order: crate::export::ItemsOrder,
) -> Result<Option<crate::item::ItemView>, ()> {
    if "anon$"@.is_prefix_of(name) || (crate::doc_item::spec_first_documented(ms) is None) {
        Ok(None)
    } else {
        let root = ms[crate::doc_item::spec_first_documented(ms)->Some_0];
        match order {
            crate::export::ItemsOrder::Alphabetical => Ok(
                Some(
                    crate::item::ItemView::Function {
                        root_metadata: root,
                        metadata: ms,
                        name: name,
                        index: 0,
                    },
                ),
            ),
            crate::export::ItemsOrder::ByIndex => match crate::doc_item::spec_directive_value(
                root.doc_comments->Some_0,
            ) {
                None => Err(()),
                Some(v) => {
                    if crate::doc_item::spec_valid_index(v) {
                        Ok(
                            Some(
                                crate::item::ItemView::Function {
                                    root_metadata: root,
                                    metadata: ms,
                                    name: name,
                                    index: crate::text::dec_value(v) as usize,
                                },
                            ),
                        )
                    } else {
                        Err(())
                    }
                },
            },
        }
    }
}

/// The items of the documented custom types, in declaration order.
pub open spec fn spec_collect_type_items(
    ts: Seq<CustomTypesMetadataView>,
    order: crate::export::ItemsOrder,
) -> Result<Seq<crate::item::ItemView>, ()>
    decreases ts.len(),
{
    if ts.len() == 0 {
        Ok(Seq::empty())
    } else {
        match spec_collect_type_items(ts.drop_last(), order) {
            Ok(prev) => match spec_type_item(ts.last(), order) {
                Ok(Some(it)) => Ok(prev.push(it)),
                Ok(None) => Ok(prev),
                Err(()) => Err(()),
            },
            Err(()) => Err(()),
        }
    }
}

/// The items of the documented function groups, in group-discovery order.
pub open spec fn spec_collect_group_items(
    gs: Seq<(Seq<char>, Seq<MetadataView>)>,
    order: crate::export::ItemsOrder,
) -> Result<Seq<crate::item::ItemView>, ()>
    decreases gs.len(),
{
    if gs.len() == 0 {
        Ok(Seq::empty())
    } else {
        match spec_collect_group_items(gs.drop_last(), order) {
            Ok(prev) => match spec_group_item(gs.last().0, gs.last().1, order) {
                Ok(Some(it)) => Ok(prev.push(it)),
                Ok(None) => Ok(prev),
                Err(()) => Err(()),
            },
            Err(()) => Err(()),
        }
    }
}

/// The function groups of a record list: each discovered name with its
/// members.
pub open spec fn spec_groups_view(fs: Seq<MetadataView>) -> Seq<(Seq<char>, Seq<MetadataView>)> {
    Seq::new(
        spec_group_names(fs).len(),
        |i: int| (spec_group_names(fs)[i], spec_group_members(fs, spec_group_names(fs)[i])),
    )
}

/// The unordered items of one module level: the documented custom types
/// followed by the documented function groups; an error where a required
/// ordering directive is missing or malformed.
pub open spec fn spec_module_items(
    m: ModuleMetadataView,
    order: crate::export::ItemsOrder,
) -> Result<Seq<crate::item::ItemView>, ()> {
    let ts = match m.custom_types {
        Some(x) => x,
        None => Seq::empty(),
    };
    let fs = match m.functions {
        Some(x) => x,
        None => Seq::empty(),
    };
    match (spec_collect_type_items(ts, order), spec_collect_group_items(
        spec_groups_view(fs),
        order,
    )) {
        (Ok(a), Ok(b)) => Ok(a + b),
        _ => Err(()),
    }
}

/// In by-index mode the retained items' directive indices must form a dense
/// permutation of 1 up to the number of items.
pub open spec fn spec_indices_valid(items: Seq<crate::item::ItemView>) -> bool {
    &&& forall|i: int|
        0 <= i < items.len() ==> 1 <= crate::item::spec_item_index(#[trigger] items[i])
            <= items.len()
    &&& forall|i: int, j: int|
        0 <= i < j < items.len() ==> crate::item::spec_item_index(items[i])
            != crate::item::spec_item_index(items[j])
}

pub ghost struct DocumentationView {
    pub namespace: Seq<char>,
    pub name: Seq<char>,
    pub sub_modules: Seq<DocumentationView>,
    pub documentation: Seq<char>,
    pub items: Seq<crate::item::ItemView>,
}

/// The mathematical value of a documentation tree.
pub open spec fn documentation_view(d: Documentation) -> DocumentationView
    decreases d,
{
    DocumentationView {
        namespace: d.namespace@,
        name: d.name@,
        sub_modules: docs_view(d.sub_modules@),
        documentation: d.documentation@,
        items: d.items.deep_view(),
    }
}

pub open spec fn docs_view(ds: Seq<Documentation>) -> Seq<DocumentationView>
    decreases ds,
{
    if ds.len() == 0 {
        Seq::empty()
    } else {
        seq![documentation_view(ds[0])] + docs_view(ds.drop_first())
    }
}

impl DeepView for Documentation {
    type V = DocumentationView;

    open spec fn deep_view(&self) -> DocumentationView {
        documentation_view(*self)
    }
}

/// Whether a whole metadata tree builds without error under the ordering
/// mode.
pub open spec fn spec_build_ok(m: ModuleMetadataView, order: crate::export::ItemsOrder) -> bool
    decreases m,
{
    &&& spec_module_items(m, order) is Ok
    &&& ((order is ByIndex) ==> spec_indices_valid(spec_module_items(m, order)->Ok_0))
    &&& match m.modules {
        None => true,
        Some(subs) => spec_build_ok_subs(subs, order),
    }
}

pub open spec fn spec_build_ok_subs(
    subs: Seq<(Seq<char>, ModuleMetadataView)>,
    order: crate::export::ItemsOrder,
) -> bool
    decreases subs,
{
    if subs.len() == 0 {
        true
    } else {
        spec_build_ok(subs[0].1, order) && spec_build_ok_subs(subs.drop_first(), order)
    }
}

/// The documentation tree built from a metadata tree: its items ordered by
/// the chosen mode, its sub-modules built recursively under a namespace
/// extended with a slash and the sub-module's name.
pub open spec fn spec_built(
    m: ModuleMetadataView,
    ns: Seq<char>,
    name: Seq<char>,
    order: crate::export::ItemsOrder,
    d: DocumentationView,
) -> bool
    decreases m,
{
    &&& d.name == name
    &&& d.namespace == ns
    &&& d.documentation == spec_module_doc_text(m)
    &&& spec_module_items(m, order) is Ok
    &&& d.items == crate::ordering::sort_le(order.spec_le(), spec_module_items(m, order)->Ok_0)
    &&& match m.modules {
        None => d.sub_modules.len() == 0,
        Some(subs) => spec_built_subs(subs, ns, order, d.sub_modules),
    }
}

pub open spec fn spec_built_subs(
    subs: Seq<(Seq<char>, ModuleMetadataView)>,
    ns: Seq<char>,
    order: crate::export::ItemsOrder,
    ds: Seq<DocumentationView>,
) -> bool
    decreases subs,
{
    if subs.len() == 0 {
        ds.len() == 0
    } else {
        &&& ds.len() == subs.len()
        &&& spec_built(subs[0].1, ns + "/"@ + subs[0].0, subs[0].0, order, ds[0])
        &&& spec_built_subs(subs.drop_first(), ns, order, ds.drop_first())
    }
}

proof fn lemma_docs_view_push(ds: Seq<Documentation>, x: Documentation)
    ensures
        docs_view(ds.push(x)) == docs_view(ds).push(documentation_view(x)),
    decreases ds.len(),
{
    if ds.len() == 0 {
        assert(ds.push(x) =~= seq![x]);
        assert(seq![x].drop_first() =~= Seq::<Documentation>::empty());
        assert(docs_view(Seq::<Documentation>::empty()) =~= Seq::<DocumentationView>::empty());
        assert(seq![x][0] == x);
        assert(docs_view(seq![x]) =~= docs_view(ds).push(documentation_view(x)));
    } else {
        lemma_docs_view_push(ds.drop_first(), x);
        assert(ds.push(x).drop_first() =~= ds.drop_first().push(x));
        assert(ds.push(x)[0] == ds[0]);
        assert(docs_view(ds.push(x)) =~= docs_view(ds).push(documentation_view(x)));
    }
}

/// Extending an aligned prefix of built sub-modules by one more keeps it
/// aligned.
proof fn lemma_built_subs_push(
    subs: Seq<(Seq<char>, ModuleMetadataView)>,
    ns: Seq<char>,
    order: crate::export::ItemsOrder,
    ds: Seq<DocumentationView>,
    x: DocumentationView,
)
    requires
        spec_built_subs(subs.drop_last(), ns, order, ds),
        subs.len() > 0,
        spec_built(subs.last().1, ns + "/"@ + subs.last().0, subs.last().0, order, x),
    ensures
        spec_built_subs(subs, ns, order, ds.push(x)),
    decreases subs.len(),
{
    if subs.len() == 1 {
        assert(subs.drop_last().len() == 0);
        assert(ds.len() == 0);
        assert(ds.push(x).len() == 1);
        assert(subs[0] == subs.last());
        assert(ds.push(x)[0] == x);
        assert(subs.drop_first() =~= Seq::<(Seq<char>, ModuleMetadataView)>::empty());
        assert(ds.push(x).drop_first() =~= Seq::<DocumentationView>::empty());
        assert(spec_built_subs(subs.drop_first(), ns, order, ds.push(x).drop_first()));
    } else {
        assert(subs.drop_last()[0] == subs[0]);
        assert(ds.len() == subs.len() - 1);
        assert(subs.drop_first().drop_last() =~= subs.drop_last().drop_first());
        assert(subs.drop_first().last() == subs.last());
        lemma_built_subs_push(subs.drop_first(), ns, order, ds.drop_first(), x);
        assert(ds.push(x)[0] == ds[0]);
        assert(ds.push(x).drop_first() =~= ds.drop_first().push(x));
        assert(ds.push(x).len() == subs.len());
        assert(subs.drop_first()[0] == subs[1]);
        assert(spec_built_subs(subs.drop_first(), ns, order, ds.push(x).drop_first()));
    }
}

/// Whether the retained items' indices form a dense permutation.
fn check_indices(items: &Vec<Item>) -> (r: bool)
    ensures
        r == spec_indices_valid(items.deep_view()),
{
    let ghost iv = items.deep_view();
    let n = items.len();
    let mut i: usize = 0;
    while i < n
        invariant
            iv == items.deep_view(),
            iv.len() == n,
            n == items.len(),
            0 <= i <= n,
            forall|k: int|
                0 <= k < i ==> 1 <= crate::item::spec_item_index(#[trigger] iv[k]) <= n,
            forall|k: int, l: int|
                0 <= k < l < iv.len() && k < i ==> crate::item::spec_item_index(iv[k])
                    != crate::item::spec_item_index(iv[l]),
        decreases n - i,
    {
        let idx = items[i].index();
        proof {
            assert(iv[i as int] == items@[i as int].deep_view());
            assert(crate::item::spec_item_index(iv[i as int]) == idx);
        }
        if idx < 1 || idx > n {
            assert(!spec_indices_valid(iv));
            return false;
        }
        let mut j: usize = i + 1;
        while j < n
            invariant
                iv == items.deep_view(),
                iv.len() == n,
                n == items.len(),
                0 <= i < j <= n,
                idx == crate::item::spec_item_index(iv[i as int]),
                forall|l: int|
                    i < l < j ==> crate::item::spec_item_index(iv[i as int])
                        != crate::item::spec_item_index(#[trigger] iv[l]),
            decreases n - j,
        {
            proof {
                assert(iv[j as int] == items@[j as int].deep_view());
            }
            if items[j].index() == idx {
                assert(crate::item::spec_item_index(iv[j as int]) == idx);
                assert(!spec_indices_valid(iv));
                return false;
            }
            j += 1;
        }
        i += 1;
    }
    proof {
        assert(spec_indices_valid(iv));
    }
    true
}

/// Build the documentation tree of one module level and its sub-modules.
/// Undocumented items are silently dropped; a missing or malformed ordering
/// directive on a retained item, or, in by-index mode, indices that do not
/// form a dense permutation, abort the whole build.
pub fn generate_module_documentation_inner(
    options: &crate::export::Options,
    namespace: Option<String>,
    name: &str,
    metadata: &ModuleMetadata,
) -> (r: Result<Documentation, Error>)
    ensures
        r is Ok <==> spec_build_ok(metadata.deep_view(), options.items_order),
        r is Err ==> r->Err_0 is ParseOrderMetadata,
        r is Ok ==> spec_built(
            metadata.deep_view(),
            match namespace {
                Some(ns) => ns@,
                None => name@,
            },
            name@,
            options.items_order,
            r->Ok_0.deep_view(),
        ),
    decreases *metadata,
{
    let ghost mv = metadata.deep_view();
    let ghost order = options.items_order;
    let name_s = String::from_str(name);
    let namespace_s: String = match namespace {
        Some(ns) => ns,
        None => name_s.clone(),
    };
    let documentation: String = match &metadata.doc {
        Some(dc) => Item::remove_test_code(Item::fmt_doc_comments(dc.as_str()).as_str()),
        None => String::new(),
    };
    // Items of the documented custom types, in declaration order.
    let ghost ts = match mv.custom_types {
        Some(x) => x,
        None => Seq::<CustomTypesMetadataView>::empty(),
    };
    let mut items: Vec<Item> = Vec::new();
    proof {
        assert(items.deep_view() =~= Seq::<crate::item::ItemView>::empty());
    }
    match &metadata.custom_types {
        Some(types) => {
            let mut i: usize = 0;
            proof {
                assert(ts.take(0) =~= Seq::<CustomTypesMetadataView>::empty());
                assert(items.deep_view() =~= Seq::<crate::item::ItemView>::empty());
            }
            while i < types.len()
                invariant
                    mv == metadata.deep_view(),
                    mv.custom_types == Some(ts),
                    ts == types.deep_view(),
                    ts.len() == types.len(),
                    0 <= i <= ts.len(),
                    order == options.items_order,
                    spec_collect_type_items(ts.take(i as int), order) == Ok::<_, ()>(
                        items.deep_view(),
                    ),
                decreases ts.len() - i,
            {
                proof {
                    assert(ts.take(i + 1).drop_last() =~= ts.take(i as int));
                    assert(ts.take(i + 1).last() == ts[i as int]);
                }
                let ghost previ = items.deep_view();
                match Item::new_custom_type(types[i].clone(), options) {
                    Ok(Some(it)) => {
                        let ghost itv = it.deep_view();
                        items.push(it);
                        proof {
                            assert(items.deep_view() =~= previ.push(itv));
                            assert(spec_type_item(ts[i as int], order) == Ok::<_, ()>(Some(itv)));
                        }
                    },
                    Ok(None) => {
                        proof {
                            assert(spec_type_item(ts[i as int], order) == Ok::<
                                Option<crate::item::ItemView>,
                                (),
                            >(None));
                        }
                    },
                    Err(e) => {
                        proof {
                            assert(spec_type_item(ts[i as int], order) is Err);
                            assert(spec_collect_type_items(ts, order) is Err) by {
                                lemma_collect_type_items_err(ts, order, i as int);
                            }
                        }
                        return Err(e);
                    },
                }
                i += 1;
            }
            proof {
                assert(ts.take(ts.len() as int) =~= ts);
            }
        },
        None => {
            proof {
                assert(ts =~= Seq::<CustomTypesMetadataView>::empty());
            }
        },
    }
    let ghost titems = items.deep_view();
    // Items of the documented function groups, in discovery order.
    let ghost fs = match mv.functions {
        Some(x) => x,
        None => Seq::<MetadataView>::empty(),
    };
    let ghost gs = spec_groups_view(fs);
    match &metadata.functions {
        Some(functions) => {
            let groups = group_functions(functions);
            let mut g: usize = 0;
            proof {
                assert(gs.take(0) =~= Seq::<(Seq<char>, Seq<MetadataView>)>::empty());
                assert(items.deep_view().take(titems.len() as int) =~= titems);
                assert(items.deep_view().skip(titems.len() as int) =~= Seq::<
                    crate::item::ItemView,
                >::empty());
            }
            while g < groups.len()
                invariant
                    mv == metadata.deep_view(),
                    mv.functions == Some(fs),
                    fs == match mv.functions {
                        Some(x) => x,
                        None => Seq::<MetadataView>::empty(),
                    },
                    gs == spec_groups_view(fs),
                    gs.len() == groups.len(),
                    forall|k: int|
                        0 <= k < gs.len() ==> (#[trigger] groups@[k].0@) == gs[k].0
                            && groups@[k].1.deep_view() == gs[k].1,
                    0 <= g <= gs.len(),
                    order == options.items_order,
                    spec_collect_group_items(gs.take(g as int), order) == Ok::<_, ()>(
                        items.deep_view().skip(titems.len() as int),
                    ),
                    items.deep_view().take(titems.len() as int) == titems,
                    items.deep_view().len() >= titems.len(),
                decreases gs.len() - g,
            {
                proof {
                    assert(gs.take(g + 1).drop_last() =~= gs.take(g as int));
                    assert(gs.take(g + 1).last() == gs[g as int]);
                }
                let ghost previ = items.deep_view();
                match Item::new_function(&groups[g].1, groups[g].0.as_str(), options) {
                    Ok(Some(it)) => {
                        let ghost itv = it.deep_view();
                        items.push(it);
                        proof {
                            assert(items.deep_view() =~= previ.push(itv));
                            assert(crate::item::spec_function_item(
                                itv,
                                gs[g as int].1,
                                gs[g as int].0,
                                crate::item::spec_item_index(itv),
                            ));
                            assert(spec_group_item(gs[g as int].0, gs[g as int].1, order) == Ok::<
                                _,
                                (),
                            >(Some(itv)));
                            assert(items.deep_view().take(titems.len() as int) =~= titems);
                            assert(items.deep_view().skip(titems.len() as int) =~= previ.skip(
                                titems.len() as int,
                            ).push(itv));
                        }
                    },
                    Ok(None) => {
                        proof {
                            assert(spec_group_item(gs[g as int].0, gs[g as int].1, order) == Ok::<
                                Option<crate::item::ItemView>,
                                (),
                            >(None));
                        }
                    },
                    Err(e) => {
                        proof {
                            assert(spec_group_item(gs[g as int].0, gs[g as int].1, order) is Err);
                            assert(spec_collect_group_items(gs, order) is Err) by {
                                lemma_collect_group_items_err(gs, order, g as int);
                            }
                        }
                        return Err(e);
                    },
                }
                g += 1;
            }
            proof {
                assert(gs.take(gs.len() as int) =~= gs);
            }
        },
        None => {
            proof {
                assert(fs =~= Seq::<MetadataView>::empty());
                assert(spec_group_names(fs) =~= Seq::<Seq<char>>::empty());
                assert(gs =~= Seq::<(Seq<char>, Seq<MetadataView>)>::empty());
                assert(items.deep_view().skip(titems.len() as int) =~= Seq::<
                    crate::item::ItemView,
                >::empty());
                assert(items.deep_view().take(titems.len() as int) =~= titems);
            }
        },
    }
    proof {
        assert(spec_collect_type_items(ts, order) == Ok::<_, ()>(titems));
        assert(spec_collect_group_items(gs, order) == Ok::<_, ()>(
            items.deep_view().skip(titems.len() as int),
        ));
        assert(mv.custom_types == (match metadata.custom_types {
            Some(x) => Some(x.deep_view()),
            None => None,
        }));
        assert(items.deep_view() =~= titems + items.deep_view().skip(titems.len() as int));
        assert(spec_module_items(mv, order) == Ok::<_, ()>(items.deep_view()));
    }
    // In by-index mode the directive indices must form a dense permutation.
    let dense_ok = match options.items_order {
        crate::export::ItemsOrder::ByIndex => check_indices(&items),
        crate::export::ItemsOrder::Alphabetical => true,
    };
    if !dense_ok {
        let mut msg = String::from_str("ordering directive indices of module ");
        msg.append(namespace_s.as_str());
        msg.append(" do not form a dense range starting at 1");
        return Err(Error::ParseOrderMetadata(msg));
    }
    let ordered = options.items_order.order_items(items);
    // Sub-modules, recursively, under an extended namespace.
    let ghost subs = match mv.modules {
        Some(x) => x,
        None => Seq::<(Seq<char>, ModuleMetadataView)>::empty(),
    };
    let mut sub_modules: Vec<Documentation> = Vec::new();
    match &metadata.modules {
        Some(subs_vec) => {
            let mut i: usize = 0;
            proof {
                assert(subs.skip(0) =~= subs);
                assert(subs.take(0) =~= Seq::<(Seq<char>, ModuleMetadataView)>::empty());
                lemma_submodules_view_len(subs_vec@);
                assert(docs_view(sub_modules@) =~= Seq::<DocumentationView>::empty());
                assert(subs == submodules_view(subs_vec@));
            }
            while i < subs_vec.len()
                invariant
                    mv == metadata.deep_view(),
                    (*metadata).modules is Some,
                    (*metadata).modules->0 == *subs_vec,
                    subs == submodules_view(subs_vec@),
                    subs.len() == subs_vec@.len(),
                    0 <= i <= subs.len(),
                    order == options.items_order,
                    forall|k: int|
                        0 <= k < i ==> spec_build_ok((#[trigger] subs[k]).1, order),
                    spec_built_subs(
                        subs.take(i as int),
                        namespace_s@,
                        order,
                        docs_view(sub_modules@),
                    ),
                    docs_view(sub_modules@).len() == i,
                decreases subs.len() - i,
            {
                proof {
                    broadcast use vstd::std_specs::vec::axiom_vec_index_decreases;

                    assert(decreases_to!(*metadata => (*metadata).modules));
                    assert(decreases_to!((*metadata).modules => (*metadata).modules->0));
                    assert(decreases_to!((*metadata).modules->0 => subs_vec[i as int]));
                    assert(decreases_to!(subs_vec[i as int] => subs_vec[i as int].1));
                    lemma_submodules_view_index(subs_vec@, i as int);
                }
                let mut ns2 = namespace_s.clone();
                ns2.append("/");
                ns2.append(subs_vec[i].0.as_str());
                proof {
                    reveal_strlit("/");
                    assert(ns2@ =~= namespace_s@ + "/"@ + subs[i as int].0);
                }
                let sub = match generate_module_documentation_inner(
                    options,
                    Some(ns2),
                    subs_vec[i].0.as_str(),
                    &subs_vec[i].1,
                ) {
                    Ok(d) => d,
                    Err(e) => {
                        proof {
                            assert(!spec_build_ok(subs[i as int].1, order));
                            lemma_build_ok_subs_err(subs, order, i as int);
                        }
                        return Err(e);
                    },
                };
                let ghost prevd = sub_modules@;
                let ghost sv = documentation_view(sub);
                sub_modules.push(sub);
                proof {
                    lemma_docs_view_push(prevd, sub_modules@[sub_modules@.len() - 1]);
                    assert(sub_modules@ =~= prevd.push(sub_modules@[sub_modules@.len() - 1]));
                    assert(subs.take(i + 1).drop_last() =~= subs.take(i as int));
                    assert(subs.take(i + 1).last() == subs[i as int]);
                    lemma_built_subs_push(
                        subs.take(i + 1),
                        namespace_s@,
                        order,
                        docs_view(prevd),
                        sv,
                    );
                }
                i += 1;
            }
            proof {
                assert(subs.take(subs.len() as int) =~= subs);
                lemma_build_ok_subs_all(subs, order);
            }
        },
        None => {
            proof {
                assert(docs_view(sub_modules@) =~= Seq::<DocumentationView>::empty());
            }
        },
    }
    let r = Documentation {
        namespace: namespace_s,
        name: name_s,
        sub_modules,
        documentation,
        items: ordered,
    };
    proof {
        assert(documentation_view(r).items == r.items.deep_view());
        assert(documentation_view(r).sub_modules == docs_view(r.sub_modules@));
        assert(documentation_view(r).documentation == spec_module_doc_text(mv));
        assert(spec_build_ok(mv, order));
        assert(spec_built(mv, r.namespace@, name@, order, documentation_view(r)));
    }
    Ok(r)
}

proof fn lemma_collect_type_items_err(
    ts: Seq<CustomTypesMetadataView>,
    order: crate::export::ItemsOrder,
    i: int,
)
    requires
        0 <= i < ts.len(),
        spec_type_item(ts[i], order) is Err,
    ensures
        spec_collect_type_items(ts, order) is Err,
    decreases ts.len(),
{
    if ts.len() > 0 {
        if i == ts.len() - 1 {
            assert(ts.last() == ts[i]);
        } else {
            assert(ts.drop_last()[i] == ts[i]);
            lemma_collect_type_items_err(ts.drop_last(), order, i);
        }
    }
}

proof fn lemma_collect_group_items_err(
    gs: Seq<(Seq<char>, Seq<MetadataView>)>,
    order: crate::export::ItemsOrder,
    i: int,
)
    requires
        0 <= i < gs.len(),
        spec_group_item(gs[i].0, gs[i].1, order) is Err,
    ensures
        spec_collect_group_items(gs, order) is Err,
    decreases gs.len(),
{
    if gs.len() > 0 {
        if i == gs.len() - 1 {
            assert(gs.last() == gs[i]);
        } else {
            assert(gs.drop_last()[i] == gs[i]);
            lemma_collect_group_items_err(gs.drop_last(), order, i);
        }
    }
}

proof fn lemma_build_ok_subs_err(
    subs: Seq<(Seq<char>, ModuleMetadataView)>,
    order: crate::export::ItemsOrder,
    i: int,
)
    requires
        0 <= i < subs.len(),
        !spec_build_ok(subs[i].1, order),
    ensures
        !spec_build_ok_subs(subs, order),
    decreases subs.len(),
{
    if subs.len() > 0 {
        if i == 0 {
        } else {
            assert(subs.drop_first()[i - 1] == subs[i]);
            lemma_build_ok_subs_err(subs.drop_first(), order, i - 1);
        }
    }
}

proof fn lemma_build_ok_subs_all(
    subs: Seq<(Seq<char>, ModuleMetadataView)>,
    order: crate::export::ItemsOrder,
)
    requires
        forall|k: int| 0 <= k < subs.len() ==> spec_build_ok((#[trigger] subs[k]).1, order),
    ensures
        spec_build_ok_subs(subs, order),
    decreases subs.len(),
{
    if subs.len() > 0 {
        assert forall|k: int|
            0 <= k < subs.drop_first().len() implies spec_build_ok(
            (#[trigger] subs.drop_first()[k]).1,
            order,
        ) by {
            assert(subs.drop_first()[k] == subs[k + 1]);
        }
        lemma_build_ok_subs_all(subs.drop_first(), order);
    }
}

#[verifier::external_type_specification]
#[verifier::external_body]
pub struct ExEngine(rhai::Engine);

/// Relies on rhai's Engine::gen_fn_metadata_to_json: renders the metadata of
/// every function, custom type and sub-module registered in the engine as a
/// JSON text. What comes back depends on the engine's registrations; nothing
/// more is assumed of it.
#[verifier::external_body]
fn engine_metadata_json(engine: &rhai::Engine, include_standard_packages: bool) -> (r: Result<
    String,
    String,
>) {
    match engine.gen_fn_metadata_to_json(include_standard_packages) {
        Ok(s) => Ok(s),
        Err(e) => Err(e.to_string()),
    }
}

/// Build module documentation from a JSON metadata text: the text parses, the
/// tree fits the schema and the build succeeds, or the first failure aborts
/// the whole build. The root module is named `global`.
pub fn documentation_from_json(json: &str, options: &crate::export::Options) -> (r: Result<
    Documentation,
    Error,
>)
    ensures
        (match crate::json::parsed_json(json@) {
            None => r is Err && r->Err_0 is ParseModuleMetadata,
            Some(v) => match spec_decode_module(v) {
                None => r is Err && r->Err_0 is ParseModuleMetadata,
                Some(m) => {
                    &&& (r is Ok <==> spec_build_ok(m, options.items_order))
                    &&& (r is Err ==> r->Err_0 is ParseOrderMetadata)
                    &&& (r is Ok ==> spec_built(
                        m,
                        "global"@,
                        "global"@,
                        options.items_order,
                        r->Ok_0.deep_view(),
                    ))
                },
            },
        }),
{
    let v = match crate::json::parse_json(json) {
        Some(v) => v,
        None => {
            return Err(
                Error::ParseModuleMetadata(
                    String::from_str("the engine metadata is not well-formed JSON"),
                ),
            );
        },
    };
    let metadata = match ModuleMetadata::decode(&v) {
        Ok(m) => m,
        Err(e) => {
            return Err(e);
        },
    };
    generate_module_documentation_inner(options, None, "global", &metadata)
}

/// Generate documentation from an engine instance. Make sure every function,
/// operator, plugin and custom type is registered inside it. Whatever
/// metadata text the engine hands back, the result is exactly its parse,
/// decode and build, with the root module named `global`.
pub fn generate_module_documentation(
    engine: &rhai::Engine,
    options: &crate::export::Options,
) -> (r: Result<Documentation, Error>)
    ensures
        r is Ok ==> exists|s: Seq<char>|
            #![auto]
            {
                &&& crate::json::parsed_json(s) is Some
                &&& spec_decode_module(crate::json::parsed_json(s)->Some_0) is Some
                &&& spec_build_ok(
                    spec_decode_module(crate::json::parsed_json(s)->Some_0)->Some_0,
                    options.items_order,
                )
                &&& spec_built(
                    spec_decode_module(crate::json::parsed_json(s)->Some_0)->Some_0,
                    "global"@,
                    "global"@,
                    options.items_order,
                    r->Ok_0.deep_view(),
                )
            },
{
    let json = match engine_metadata_json(engine, options.include_standard_packages) {
        Ok(s) => s,
        Err(msg) => {
            return Err(Error::ParseModuleMetadata(msg));
        },
    };
    let r = documentation_from_json(json.as_str(), options);
    proof {
        if r is Ok {
            assert(crate::json::parsed_json(json@) is Some);
        }
    }
    r
}

proof fn lemma_submodules_view_len(ms: Seq<(String, ModuleMetadata)>)
    ensures
        submodules_view(ms).len() == ms.len(),
    decreases ms.len(),
{
    if ms.len() > 0 {
        lemma_submodules_view_len(ms.drop_first());
    }
}

proof fn lemma_submodules_view_index(ms: Seq<(String, ModuleMetadata)>, i: int)
    requires
        0 <= i < ms.len(),
    ensures
        submodules_view(ms).len() == ms.len(),
        submodules_view(ms)[i] == (ms[i].0@, module_metadata_view(ms[i].1)),
    decreases ms.len(),
{
    lemma_submodules_view_len(ms);
    if i == 0 {
    } else {
        lemma_submodules_view_index(ms.drop_first(), i - 1);
        assert(ms.drop_first()[i - 1] == ms[i]);
    }
}

} // verus!
