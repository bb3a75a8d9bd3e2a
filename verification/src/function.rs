//! Function metadata and signature synthesis: classifies each registered
//! function by its reserved name prefixes or operator symbol, resolves display
//! types through a fixed substitution table, and renders a readable
//! pseudo-signature.
use crate::text::{
    replace_pat, spec_replace, spec_rsplit_once, spec_split_once, spec_trim, split_once_pat,
    starts_with_pat, str_eq, trim_str,
};
use vstd::prelude::*;

verus! {

/// One declared parameter of a function: its name and raw type, either of
/// which the engine may omit.
#[derive(Debug)]
pub struct Param {
    pub name: Option<String>,
    pub ty: Option<String>,
}

pub ghost struct ParamView {
    pub name: Option<Seq<char>>,
    pub ty: Option<Seq<char>>,
}

impl DeepView for Param {
    type V = ParamView;

    open spec fn deep_view(&self) -> ParamView {
        ParamView { name: self.name.deep_view(), ty: self.ty.deep_view() }
    }
}

fn clone_opt_string(s: &Option<String>) -> (r: Option<String>)
    ensures
        r == *s,
{
    match s {
        Some(x) => Some(x.clone()),
        None => None,
    }
}

/// A copy of a vector of strings, equal to the original.
pub fn clone_string_vec(v: &Vec<String>) -> (r: Vec<String>)
    ensures
        r@ == v@,
        r.deep_view() == v.deep_view(),
{
    let r = v.clone();
    proof {
        assert(r@ =~= v@);
        assert(r.deep_view() =~= v.deep_view());
    }
    r
}

fn clone_opt_string_vec(v: &Option<Vec<String>>) -> (r: Option<Vec<String>>)
    ensures
        r.deep_view() == v.deep_view(),
        r is Some <==> v is Some,
{
    match v {
        Some(x) => Some(clone_string_vec(x)),
        None => None,
    }
}

impl Clone for Param {
    fn clone(&self) -> (r: Self)
        ensures
            r.deep_view() == self.deep_view(),
    {
        Param { name: clone_opt_string(&self.name), ty: clone_opt_string(&self.ty) }
    }
}

/// Metadata exposed by the scripting engine for one registered function.
#[derive(Debug)]
pub struct Metadata {
    pub access: String,
    pub base_hash: u128,
    pub full_hash: u128,
    pub name: String,
    pub namespace: String,
    pub num_params: usize,
    pub params: Option<Vec<Param>>,
    pub signature: String,
    pub return_type: Option<String>,
    pub doc_comments: Option<Vec<String>>,
}

pub ghost struct MetadataView {
    pub access: Seq<char>,
    pub base_hash: u128,
    pub full_hash: u128,
    pub name: Seq<char>,
    pub namespace: Seq<char>,
    pub num_params: usize,
    pub params: Option<Seq<ParamView>>,
    pub signature: Seq<char>,
    pub return_type: Option<Seq<char>>,
    pub doc_comments: Option<Seq<Seq<char>>>,
}

impl DeepView for Metadata {
    type V = MetadataView;

    open spec fn deep_view(&self) -> MetadataView {
        MetadataView {
            access: self.access@,
            base_hash: self.base_hash,
            full_hash: self.full_hash,
            name: self.name@,
            namespace: self.namespace@,
            num_params: self.num_params,
            params: self.params.deep_view(),
            signature: self.signature@,
            return_type: self.return_type.deep_view(),
            doc_comments: self.doc_comments.deep_view(),
        }
    }
}

impl Clone for Metadata {
    fn clone(&self) -> (r: Self)
        ensures
            r.deep_view() == self.deep_view(),
    {
        let params: Option<Vec<Param>> = match &self.params {
            Some(v) => {
                let c = v.clone();
                proof {
                    assert(c.deep_view() =~= v.deep_view());
                }
                Some(c)
            },
            None => None,
        };
        let r = Metadata {
            access: self.access.clone(),
            base_hash: self.base_hash,
            full_hash: self.full_hash,
            name: self.name.clone(),
            namespace: self.namespace.clone(),
            num_params: self.num_params,
            params,
            signature: self.signature.clone(),
            return_type: clone_opt_string(&self.return_type),
            doc_comments: clone_opt_string_vec(&self.doc_comments),
        };
        proof {
            assert(r.deep_view().params =~= self.deep_view().params);
        }
        r
    }
}

/// Whether `name` is one of the fixed comparison or membership operator
/// symbols.
pub open spec fn spec_is_operator(name: Seq<char>) -> bool {
    ||| name == "=="@
    ||| name == "!="@
    ||| name == ">"@
    ||| name == ">="@
    ||| name == "<"@
    ||| name == "<="@
    ||| name == "in"@
}

pub fn is_operator(name: &str) -> (r: bool)
    ensures
        r == spec_is_operator(name@),
{
    str_eq(name, "==") || str_eq(name, "!=") || str_eq(name, ">") || str_eq(name, ">=") || str_eq(
        name,
        "<",
    ) || str_eq(name, "<=") || str_eq(name, "in")
}

/// A type with a fallible-result wrapper unwrapped: the text between the
/// wrapper's opening bracket and the first comma or closing bracket after it,
/// trimmed; or the type unchanged where no wrapper is recognized.
pub open spec fn spec_remove_result(ty: Seq<char>) -> Seq<char> {
    let after = if spec_split_once(ty, "Result<"@) is Some {
        Some(spec_split_once(ty, "Result<"@)->Some_0.1)
    } else if spec_split_once(ty, "RhaiResultOf<"@) is Some {
        Some(spec_split_once(ty, "RhaiResultOf<"@)->Some_0.1)
    } else {
        None
    };
    match after {
        Some(a) => {
            if spec_split_once(a, ","@) is Some {
                spec_trim(spec_split_once(a, ","@)->Some_0.0)
            } else if spec_split_once(a, ">"@) is Some {
                spec_trim(spec_split_once(a, ">"@)->Some_0.0)
            } else {
                ty
            }
        },
        None => ty,
    }
}

/// The success type of a fallible wrapper type, for readable documentation.
pub fn remove_result(ty: &str) -> (r: String)
    ensures
        r@ == spec_remove_result(ty@),
{
    let after = match split_once_pat(ty, "Result<") {
        Some(p) => Some(p.1),
        None => match split_once_pat(ty, "RhaiResultOf<") {
            Some(p) => Some(p.1),
            None => None,
        },
    };
    match after {
        Some(a) => match split_once_pat(a.as_str(), ",") {
            Some(p) => trim_str(p.0.as_str()),
            None => match split_once_pat(a.as_str(), ">") {
                Some(p) => trim_str(p.0.as_str()),
                None => String::from_str(ty),
            },
        },
        None => String::from_str(ty),
    }
}

/// The display form of a raw type name: a leading mutable-reference marker
/// stripped, a fallible wrapper unwrapped, module qualifiers dropped down to
/// the last segment, and the fixed substitution table applied; `None` for the
/// unit type, which is omitted from signatures.
pub open spec fn spec_def_type_name(ty: Seq<char>) -> Option<Seq<char>> {
    let t0 = if "&mut"@.is_prefix_of(ty) {
        spec_trim(ty.skip("&mut"@.len() as int))
    } else {
        spec_trim(ty)
    };
    let t1 = spec_remove_result(t0);
    let t2 = match spec_rsplit_once(t1, "::"@) {
        Some(p) => p.1,
        None => t1,
    };
    let t3 = spec_replace(t2, "Iterator<Item="@, "Iterator<"@);
    let t4 = spec_replace(t3, "Dynamic"@, "?"@);
    let t5 = spec_replace(t4, "INT"@, "int"@);
    let t6 = spec_replace(t5, "i64"@, "int"@);
    let t7 = spec_replace(t6, "FLOAT"@, "float"@);
    let t8 = spec_replace(t7, "&str"@, "String"@);
    let t9 = spec_replace(t8, "ImmutableString"@, "String"@);
    let t10 = spec_replace(t9, "f64"@, "float"@);
    if t10 == "()"@ {
        None
    } else {
        Some(t10)
    }
}

/// The display form of a raw type name.
pub fn def_type_name(ty: &str) -> (r: Option<String>)
    ensures
        match r {
            Some(t) => spec_def_type_name(ty@) == Some(t@),
            None => spec_def_type_name(ty@) is None,
        },
{
    proof {
        reveal_strlit("&mut");
        reveal_strlit("Iterator<Item=");
        reveal_strlit("Dynamic");
        reveal_strlit("INT");
        reveal_strlit("i64");
        reveal_strlit("FLOAT");
        reveal_strlit("&str");
        reveal_strlit("ImmutableString");
        reveal_strlit("f64");
    }
    let stripped = if starts_with_pat(ty, "&mut") {
        let skipped = ty.substring_char("&mut".unicode_len(), ty.unicode_len());
        assert(skipped@ =~= ty@.skip("&mut"@.len() as int));
        trim_str(skipped)
    } else {
        trim_str(ty)
    };
    let t1 = remove_result(stripped.as_str());
    let t2 = match crate::text::rsplit_once_pat(t1.as_str(), "::") {
        Some(p) => p.1,
        None => t1,
    };
    let t3 = replace_pat(t2.as_str(), "Iterator<Item=", "Iterator<");
    let t4 = replace_pat(t3.as_str(), "Dynamic", "?");
    let t5 = replace_pat(t4.as_str(), "INT", "int");
    let t6 = replace_pat(t5.as_str(), "i64", "int");
    let t7 = replace_pat(t6.as_str(), "FLOAT", "float");
    let t8 = replace_pat(t7.as_str(), "&str", "String");
    let t9 = replace_pat(t8.as_str(), "ImmutableString", "String");
    let t10 = replace_pat(t9.as_str(), "f64", "float");
    if str_eq(t10.as_str(), "()") {
        None
    } else {
        Some(t10)
    }
}

/// One display slot of a synthesized signature: an argument name and its
/// resolved display type.
#[derive(Debug)]
pub struct Arg {
    pub name: String,
    pub ty: String,
}

impl Clone for Arg {
    fn clone(&self) -> (r: Self)
        ensures
            r == *self,
    {
        Arg { name: self.name.clone(), ty: self.ty.clone() }
    }
}

pub ghost struct ArgView {
    pub name: Seq<char>,
    pub ty: Seq<char>,
}

impl View for Arg {
    type V = ArgView;

    open spec fn view(&self) -> ArgView {
        ArgView { name: self.name@, ty: self.ty@ }
    }
}

impl DeepView for Arg {
    type V = ArgView;

    open spec fn deep_view(&self) -> ArgView {
        self.view()
    }
}

impl Arg {
    /// The slot used where a declared parameter has no descriptor.
    pub fn unknown() -> (r: Self)
        ensures
            r@.name == "_"@,
            r@.ty == "?"@,
    {
        Arg { name: String::from_str("_"), ty: String::from_str("?") }
    }

    /// The rendering of one slot: `name: type`.
    pub fn display(&self) -> (r: String)
        ensures
            r@ == spec_arg_display(self@),
    {
        let mut out = String::new();
        out.append(self.name.as_str());
        out.append(": ");
        out.append(self.ty.as_str());
        out
    }
}

pub open spec fn spec_arg_display(a: ArgView) -> Seq<char> {
    a.name + ": "@ + a.ty
}

/// The display slot drawn from position `i` of the declared parameters: a
/// missing descriptor or field renders as `_` and `?`.
pub open spec fn spec_get_arg(args: Seq<ParamView>, i: int) -> ArgView {
    if 0 <= i < args.len() {
        ArgView {
            name: match args[i].name {
                Some(n) => n,
                None => "_"@,
            },
            ty: match args[i].ty {
                Some(t) => match spec_def_type_name(t) {
                    Some(x) => x,
                    None => "?"@,
                },
                None => "?"@,
            },
        }
    } else {
        ArgView { name: "_"@, ty: "?"@ }
    }
}

fn get_arg(args: &Vec<Param>, i: usize) -> (r: Arg)
    ensures
        r@ == spec_get_arg(args.deep_view(), i as int),
{
    if i < args.len() {
        let name = match &args[i].name {
            Some(n) => n.clone(),
            None => String::from_str("_"),
        };
        let ty = match &args[i].ty {
            Some(t) => match def_type_name(t.as_str()) {
                Some(x) => x,
                None => String::from_str("?"),
            },
            None => String::from_str("?"),
        };
        Arg { name, ty }
    } else {
        Arg::unknown()
    }
}

/// The classified form of one function: a plain function, a binary operator,
/// a property getter or setter, or an indexer.
#[derive(Debug)]
pub enum Definition {
    Function { name: String, args: Vec<Arg>, return_type: Option<String> },
    Operator { name: String, arg1: Arg, arg2: Arg, return_type: Option<String> },
    Get { target: Arg, index: Arg, return_type: Option<String> },
    Setter { target: Arg, index: Arg, value: Arg },
    IndexGet { target: Arg, index: Arg, return_type: Option<String> },
    IndexSet { target: Arg, index: Arg, value: Arg },
}

pub ghost enum DefinitionView {
    Function { name: Seq<char>, args: Seq<ArgView>, return_type: Option<Seq<char>> },
    Operator { name: Seq<char>, arg1: ArgView, arg2: ArgView, return_type: Option<Seq<char>> },
    Get { target: ArgView, index: ArgView, return_type: Option<Seq<char>> },
    Setter { target: ArgView, index: ArgView, value: ArgView },
    IndexGet { target: ArgView, index: ArgView, return_type: Option<Seq<char>> },
    IndexSet { target: ArgView, index: ArgView, value: ArgView },
}

impl View for Definition {
    type V = DefinitionView;

    open spec fn view(&self) -> DefinitionView {
        match self {
            Definition::Function { name, args, return_type } => DefinitionView::Function {
                name: name@,
                args: args.deep_view(),
                return_type: return_type.deep_view(),
            },
            Definition::Operator { name, arg1, arg2, return_type } => DefinitionView::Operator {
                name: name@,
                arg1: arg1@,
                arg2: arg2@,
                return_type: return_type.deep_view(),
            },
            Definition::Get { target, index, return_type } => DefinitionView::Get {
                target: target@,
                index: index@,
                return_type: return_type.deep_view(),
            },
            Definition::Setter { target, index, value } => DefinitionView::Setter {
                target: target@,
                index: index@,
                value: value@,
            },
            Definition::IndexGet { target, index, return_type } => DefinitionView::IndexGet {
                target: target@,
                index: index@,
                return_type: return_type.deep_view(),
            },
            Definition::IndexSet { target, index, value } => DefinitionView::IndexSet {
                target: target@,
                index: index@,
                value: value@,
            },
        }
    }
}

/// The classification of a function by its name: a fixed operator symbol, a
/// reserved accessor or indexer prefix, or a plain function; display slots
/// are drawn positionally from the declared parameters.
pub open spec fn spec_new_definition(
    name: Seq<char>,
    args: Seq<ParamView>,
    ret: Option<Seq<char>>,
) -> DefinitionView {
    let rt = match ret {
        Some(t) => spec_def_type_name(t),
        None => None,
    };
    if spec_is_operator(name) {
        DefinitionView::Operator {
            name: name,
            arg1: spec_get_arg(args, 0),
            arg2: spec_get_arg(args, 1),
            return_type: rt,
        }
    } else if "get$"@.is_prefix_of(name) {
        DefinitionView::Get {
            target: spec_get_arg(args, 0),
            index: ArgView { name: name.skip("get$"@.len() as int), ty: "_"@ },
            return_type: rt,
        }
    } else if "set$"@.is_prefix_of(name) {
        DefinitionView::Setter {
            target: spec_get_arg(args, 0),
            index: ArgView { name: name.skip("set$"@.len() as int), ty: "_"@ },
            value: spec_get_arg(args, 1),
        }
    } else if "index$get$"@.is_prefix_of(name) {
        DefinitionView::IndexGet {
            target: spec_get_arg(args, 0),
            index: spec_get_arg(args, 1),
            return_type: rt,
        }
    } else if "index$set$"@.is_prefix_of(name) {
        DefinitionView::IndexSet {
            target: spec_get_arg(args, 0),
            index: spec_get_arg(args, 1),
            value: spec_get_arg(args, 2),
        }
    } else {
        DefinitionView::Function {
            name: name,
            args: Seq::new(args.len(), |i: int| spec_get_arg(args, i)),
            return_type: rt,
        }
    }
}

impl Definition {
    /// Classify a function by name and resolve its display slots.
    pub fn new(name: &str, args: &Vec<Param>, return_type: Option<&str>) -> (r: Self)
        ensures
            r@ == spec_new_definition(name@, args.deep_view(), return_type.deep_view()),
    {
        let rt: Option<String> = match return_type {
            Some(t) => def_type_name(t),
            None => None,
        };
        if is_operator(name) {
            Definition::Operator {
                name: String::from_str(name),
                arg1: get_arg(args, 0),
                arg2: get_arg(args, 1),
                return_type: rt,
            }
        } else if starts_with_pat(name, "get$") {
            let field = name.substring_char("get$".unicode_len(), name.unicode_len());
            assert(field@ =~= name@.skip("get$"@.len() as int));
            Definition::Get {
                target: get_arg(args, 0),
                index: Arg { name: String::from_str(field), ty: String::from_str("_") },
                return_type: rt,
            }
        } else if starts_with_pat(name, "set$") {
            let field = name.substring_char("set$".unicode_len(), name.unicode_len());
            assert(field@ =~= name@.skip("set$"@.len() as int));
            Definition::Setter {
                target: get_arg(args, 0),
                index: Arg { name: String::from_str(field), ty: String::from_str("_") },
                value: get_arg(args, 1),
            }
        } else if starts_with_pat(name, "index$get$") {
            Definition::IndexGet {
                target: get_arg(args, 0),
                index: get_arg(args, 1),
                return_type: rt,
            }
        } else if starts_with_pat(name, "index$set$") {
            Definition::IndexSet {
                target: get_arg(args, 0),
                index: get_arg(args, 1),
                value: get_arg(args, 2),
            }
        } else {
            let mut slots: Vec<Arg> = Vec::new();
            let mut i: usize = 0;
            while i < args.len()
                invariant
                    0 <= i <= args.len(),
                    args.deep_view().len() == args.len(),
                    slots.deep_view().len() == i,
                    forall|k: int|
                        0 <= k < i ==> slots.deep_view()[k] == spec_get_arg(args.deep_view(), k),
                decreases args.len() - i,
            {
                slots.push(get_arg(args, i));
                i += 1;
            }
            proof {
                assert(slots.deep_view() =~= Seq::new(
                    args.deep_view().len(),
                    |i: int| spec_get_arg(args.deep_view(), i),
                ));
            }
            Definition::Function {
                name: String::from_str(name),
                args: slots,
                return_type: rt,
            }
        }
    }
}

impl Clone for Definition {
    fn clone(&self) -> (r: Self)
        ensures
            r@ == self@,
    {
        match self {
            Definition::Function { name, args, return_type } => {
                let cargs = args.clone();
                proof {
                    assert(cargs.deep_view() =~= args.deep_view());
                }
                Definition::Function {
                    name: name.clone(),
                    args: cargs,
                    return_type: clone_opt_string(return_type),
                }
            },
            Definition::Operator { name, arg1, arg2, return_type } => Definition::Operator {
                name: name.clone(),
                arg1: arg1.clone(),
                arg2: arg2.clone(),
                return_type: clone_opt_string(return_type),
            },
            Definition::Get { target, index, return_type } => Definition::Get {
                target: target.clone(),
                index: index.clone(),
                return_type: clone_opt_string(return_type),
            },
            Definition::Setter { target, index, value } => Definition::Setter {
                target: target.clone(),
                index: index.clone(),
                value: value.clone(),
            },
            Definition::IndexGet { target, index, return_type } => Definition::IndexGet {
                target: target.clone(),
                index: index.clone(),
                return_type: clone_opt_string(return_type),
            },
            Definition::IndexSet { target, index, value } => Definition::IndexSet {
                target: target.clone(),
                index: index.clone(),
                value: value.clone(),
            },
        }
    }
}

/// The suffix rendering a resolved return type, empty where the function
/// returns nothing.
pub open spec fn spec_ret_suffix(rt: Option<Seq<char>>) -> Seq<char> {
    match rt {
        Some(t) => " -> "@ + t,
        None => Seq::empty(),
    }
}

/// The rendered signature of a classified function.
pub open spec fn spec_display_definition(d: DefinitionView) -> Seq<char> {
    match d {
        DefinitionView::Function { name, args, return_type } => "fn "@ + name + "("@
            + spec_join_args(args) + ")"@ + spec_ret_suffix(return_type),
        DefinitionView::Operator { name, arg1, arg2, return_type } => "op "@ + arg1.ty + " "@
            + name + " "@ + arg2.ty + spec_ret_suffix(return_type),
        DefinitionView::Get { target, index, return_type } => "get "@ + target.ty + "."@
            + index.name + spec_ret_suffix(return_type),
        DefinitionView::Setter { target, index, value } => "set "@ + target.ty + "."@ + index.name
            + " = "@ + value.ty,
        DefinitionView::IndexGet { target, index, return_type } => "index get "@ + target.ty + "["@
            + spec_arg_display(index) + "]"@ + spec_ret_suffix(return_type),
        DefinitionView::IndexSet { target, index, value } => "index set "@ + target.ty + "["@
            + spec_arg_display(index) + "]"@ + " = "@ + value.ty,
    }
}

/// The display slots joined with commas.
pub open spec fn spec_join_args(args: Seq<ArgView>) -> Seq<char> {
    crate::text::spec_join_sep(args.map_values(|a: ArgView| spec_arg_display(a)), ", "@)
}

/// The short tag naming the kind of a definition.
pub open spec fn spec_type_str(d: DefinitionView) -> Seq<char> {
    match d {
        DefinitionView::Function { .. } => "fn"@,
        DefinitionView::Operator { .. } => "op"@,
        DefinitionView::Get { .. } => "get/set"@,
        DefinitionView::Setter { .. } => "get/set"@,
        DefinitionView::IndexGet { .. } => "index get/set"@,
        DefinitionView::IndexSet { .. } => "index get/set"@,
    }
}

/// The normalized name of a definition, used to group overloads: accessors
/// and indexers of one target and field share it.
pub open spec fn spec_def_name(d: DefinitionView) -> Seq<char> {
    match d {
        DefinitionView::Function { name, .. } => name,
        DefinitionView::Operator { name, .. } => name,
        DefinitionView::Get { target, index, .. } => target.ty + "."@ + index.name,
        DefinitionView::Setter { target, index, .. } => target.ty + "."@ + index.name,
        DefinitionView::IndexGet { target, index, .. } => target.ty + "."@ + index.ty,
        DefinitionView::IndexSet { target, index, .. } => target.ty + "."@ + index.ty,
    }
}

impl Definition {
    /// Render the signature: `fn name(arg: T, ...) -> R`, `op T1 symbol T2 ->
    /// R`, `get Target.field -> R`, `set Target.field = V`, `index get
    /// Target[i: T] -> R` or `index set Target[i: T] = V`.
    pub fn display(&self) -> (r: String)
        ensures
            r@ == spec_display_definition(self@),
    {
        let mut out = String::new();
        match self {
            Definition::Function { name, args, return_type } => {
                out.append("fn ");
                out.append(name.as_str());
                out.append("(");
                let mut shown: Vec<String> = Vec::new();
                let mut i: usize = 0;
                while i < args.len()
                    invariant
                        0 <= i <= args.len(),
                        args.deep_view().len() == args.len(),
                        shown.deep_view().len() == i,
                        forall|k: int|
                            0 <= k < i ==> shown.deep_view()[k] == spec_arg_display(
                                args.deep_view()[k],
                            ),
                    decreases args.len() - i,
                {
                    let ghost prev = shown.deep_view();
                    shown.push(args[i].display());
                    proof {
                        assert(shown.deep_view() =~= prev.push(
                            spec_arg_display(args.deep_view()[i as int]),
                        ));
                    }
                    i += 1;
                }
                proof {
                    assert(shown.deep_view() =~= args.deep_view().map_values(
                        |a: ArgView| spec_arg_display(a),
                    ));
                }
                let joined = crate::text::join_with(&shown, ", ");
                out.append(joined.as_str());
                out.append(")");
                match return_type {
                    Some(t) => {
                        out.append(" -> ");
                        out.append(t.as_str());
                    },
                    None => {},
                }
            },
            Definition::Operator { name, arg1, arg2, return_type } => {
                out.append("op ");
                out.append(arg1.ty.as_str());
                out.append(" ");
                out.append(name.as_str());
                out.append(" ");
                out.append(arg2.ty.as_str());
                match return_type {
                    Some(t) => {
                        out.append(" -> ");
                        out.append(t.as_str());
                    },
                    None => {},
                }
            },
            Definition::Get { target, index, return_type } => {
                out.append("get ");
                out.append(target.ty.as_str());
                out.append(".");
                out.append(index.name.as_str());
                match return_type {
                    Some(t) => {
                        out.append(" -> ");
                        out.append(t.as_str());
                    },
                    None => {},
                }
            },
            Definition::Setter { target, index, value } => {
                out.append("set ");
                out.append(target.ty.as_str());
                out.append(".");
                out.append(index.name.as_str());
                out.append(" = ");
                out.append(value.ty.as_str());
            },
            Definition::IndexGet { target, index, return_type } => {
                out.append("index get ");
                out.append(target.ty.as_str());
                out.append("[");
                let shown = index.display();
                out.append(shown.as_str());
                out.append("]");
                match return_type {
                    Some(t) => {
                        out.append(" -> ");
                        out.append(t.as_str());
                    },
                    None => {},
                }
            },
            Definition::IndexSet { target, index, value } => {
                out.append("index set ");
                out.append(target.ty.as_str());
                out.append("[");
                let shown = index.display();
                out.append(shown.as_str());
                out.append("]");
                out.append(" = ");
                out.append(value.ty.as_str());
            },
        }
        proof {
            assert(out@ =~= spec_display_definition(self@));
        }
        out
    }

    /// The short tag naming the kind of this definition.
    pub fn type_to_str(&self) -> (r: &'static str)
        ensures
            r@ == spec_type_str(self@),
    {
        match self {
            Definition::Function { .. } => "fn",
            Definition::Operator { .. } => "op",
            Definition::Get { .. } => "get/set",
            Definition::Setter { .. } => "get/set",
            Definition::IndexGet { .. } => "index get/set",
            Definition::IndexSet { .. } => "index get/set",
        }
    }

    /// The normalized name of this definition.
    pub fn name(&self) -> (r: String)
        ensures
            r@ == spec_def_name(self@),
    {
        match self {
            Definition::Function { name, .. } => name.clone(),
            Definition::Operator { name, .. } => name.clone(),
            Definition::Get { target, index, .. } => {
                let mut out = target.ty.clone();
                out.append(".");
                out.append(index.name.as_str());
                out
            },
            Definition::Setter { target, index, .. } => {
                let mut out = target.ty.clone();
                out.append(".");
                out.append(index.name.as_str());
                out
            },
            Definition::IndexGet { target, index, .. } => {
                let mut out = target.ty.clone();
                out.append(".");
                out.append(index.ty.as_str());
                out
            },
            Definition::IndexSet { target, index, .. } => {
                let mut out = target.ty.clone();
                out.append(".");
                out.append(index.ty.as_str());
                out
            },
        }
    }
}

/// The classified definition synthesized from one metadata record.
pub open spec fn spec_fn_definition(m: MetadataView) -> DefinitionView {
    spec_new_definition(
        m.name,
        match m.params {
            Some(p) => p,
            None => Seq::empty(),
        },
        m.return_type,
    )
}

impl Metadata {
    /// Synthesize the displayed definition of this function, e.g.
    /// `fn my_func(a: int)`.
    pub fn generate_function_definition(&self) -> (r: Definition)
        ensures
            r@ == spec_fn_definition(self.deep_view()),
    {
        match &self.params {
            Some(p) => Definition::new(
                self.name.as_str(),
                p,
                match &self.return_type {
                    Some(t) => Some(t.as_str()),
                    None => None,
                },
            ),
            None => {
                let empty: Vec<Param> = Vec::new();
                proof {
                    assert(empty.deep_view() =~= Seq::<ParamView>::empty());
                }
                Definition::new(
                    self.name.as_str(),
                    &empty,
                    match &self.return_type {
                        Some(t) => Some(t.as_str()),
                        None => None,
                    },
                )
            },
        }
    }
}

} // verus!
