//! Declarative command shapes and the specifications built from them.

use vstd::prelude::*;
use crate::param::{FieldType, ParamType, ValueKind, get_param_type, resolve};
use crate::command::texts;
use crate::types::{CommandSpec, ParamSpec};

verus! {

/// What `heck` makes of an identifier in snake case.
pub uninterp spec fn snake_case_of(s: Seq<char>) -> Seq<char>;

/// Relies on `heck::ToSnakeCase::to_snake_case` for `str`: its result
/// depends on the text alone.
#[verifier::external_body]
fn to_snake_case(s: &str) -> (r: String)
    ensures
        r@ == snake_case_of(s@),
{
    heck::ToSnakeCase::to_snake_case(s)
}

/// One parameter of a command or of one of its variants.
#[derive(Clone, Debug, PartialEq)]
pub struct ParamMeta {
    pub name: String,
    pub kind: ValueKind,
    pub optional: bool,
}

pub struct ParamModel {
    pub name: Seq<char>,
    pub kind: ValueKind,
    pub optional: bool,
}

impl ParamMeta {
    pub open spec fn model(&self) -> ParamModel {
        ParamModel { name: self.name@, kind: self.kind, optional: self.optional }
    }

    /// The parameter for a field of the given name and declared type.
    pub fn from_field(name: &str, ty: &FieldType) -> (r: ParamMeta)
        ensures
            r.name@ == name@,
            (r.kind, r.optional) == resolve(*ty),
    {
        let (kind, optional) = get_param_type(ty);
        ParamMeta { name: name.to_owned(), kind, optional }
    }

    /// A copy of this parameter.
    pub fn duplicate(&self) -> (r: ParamMeta)
        ensures
            r.model() == self.model(),
    {
        ParamMeta { name: self.name.clone(), kind: self.kind, optional: self.optional }
    }
}

pub open spec fn param_models(ps: Seq<ParamMeta>) -> Seq<ParamModel> {
    ps.map_values(|p: ParamMeta| p.model())
}

/// A named field of a command struct or variant.
#[derive(Debug)]
pub struct FieldDecl {
    pub name: String,
    pub ty: FieldType,
}

/// The parameter a declared field becomes.
pub open spec fn field_param(f: FieldDecl) -> ParamModel {
    ParamModel { name: f.name@, kind: resolve(f.ty).0, optional: resolve(f.ty).1 }
}

/// One parameter per field, in declaration order.
pub fn collect_params(fields: &Vec<FieldDecl>) -> (r: Vec<ParamMeta>)
    ensures
        param_models(r@) == fields@.map_values(|f: FieldDecl| field_param(f)),
{
    let mut out: Vec<ParamMeta> = Vec::new();
    let mut i: usize = 0;
    while i < fields.len()
        invariant
            0 <= i <= fields@.len(),
            param_models(out@) == fields@.subrange(0, i as int).map_values(
                |f: FieldDecl| field_param(f),
            ),
        decreases fields@.len() - i,
    {
        let ghost before = out@;
        out.push(ParamMeta::from_field(fields[i].name.as_str(), &fields[i].ty));
        proof {
            assert(param_models(out@) =~= param_models(before).push(field_param(fields@[i as int])));
            assert(param_models(out@) =~= fields@.subrange(0, i as int + 1).map_values(
                |f: FieldDecl| field_param(f),
            ));
        }
        i = i + 1;
    }
    proof {
        assert(fields@.subrange(0, fields@.len() as int) =~= fields@);
    }
    out
}

/// One subcommand of a variant-shaped command.
#[derive(Clone, Debug, PartialEq)]
pub struct VariantMeta {
    /// The variant's identifier, e.g. `Pay`.
    pub ident: String,
    /// The name it is matched by, e.g. `pay`.
    pub canonical: String,
    /// Further names it is matched by.
    pub aliases: Vec<String>,
    /// Its own parameters, bound from the token after the subcommand on.
    pub params: Vec<ParamMeta>,
}

pub struct VariantModel {
    pub canonical: Seq<char>,
    pub aliases: Seq<Seq<char>>,
    pub params: Seq<ParamModel>,
}

impl VariantMeta {
    pub open spec fn model(&self) -> VariantModel {
        VariantModel {
            canonical: self.canonical@,
            aliases: texts(self.aliases@),
            params: param_models(self.params@),
        }
    }

    /// A variant named `name`, or by default its identifier in snake case.
    pub fn new(ident: &str, name: Option<&str>, aliases: Vec<String>, params: Vec<ParamMeta>) -> (r:
        VariantMeta)
        ensures
            r.ident@ == ident@,
            r.canonical@ == match name {
                Some(n) => n@,
                None => snake_case_of(ident@),
            },
            r.aliases == aliases,
            r.params == params,
    {
        let canonical = match name {
            Some(n) => n.to_owned(),
            None => to_snake_case(ident),
        };
        VariantMeta { ident: ident.to_owned(), canonical, aliases, params }
    }
}

pub open spec fn variant_models(vs: Seq<VariantMeta>) -> Seq<VariantModel> {
    vs.map_values(|v: VariantMeta| v.model())
}

/// A command's shape: a flat parameter list, or named variants each with
/// their own parameters.
#[derive(Clone, Debug, PartialEq)]
pub enum CommandShape {
    Struct { params: Vec<ParamMeta> },
    Enum { variants: Vec<VariantMeta> },
}

pub enum ShapeModel {
    Struct(Seq<ParamModel>),
    Enum(Seq<VariantModel>),
}

/// Why a shape cannot be built.
#[derive(Clone, Copy, Debug, PartialEq, Eq, Structural)]
pub enum ShapeError {
    /// A variant-shaped command needs at least one variant.
    NoVariants,
}

impl CommandShape {
    pub open spec fn model(&self) -> ShapeModel {
        match self {
            CommandShape::Struct { params } => ShapeModel::Struct(param_models(params@)),
            CommandShape::Enum { variants } => ShapeModel::Enum(variant_models(variants@)),
        }
    }

    /// A variant shape; fails where there is no variant.
    pub fn from_variants(variants: Vec<VariantMeta>) -> (r: Result<CommandShape, ShapeError>)
        ensures
            variants@.len() == 0 ==> r == Err::<CommandShape, ShapeError>(ShapeError::NoVariants),
            variants@.len() > 0 ==> r == Ok::<CommandShape, ShapeError>(
                CommandShape::Enum { variants },
            ),
    {
        if variants.len() == 0 {
            Err(ShapeError::NoVariants)
        } else {
            Ok(CommandShape::Enum { variants })
        }
    }
}

/// A command: its name, description, aliases and shape.
#[derive(Clone, Debug, PartialEq)]
pub struct CommandDef {
    pub name: String,
    pub description: String,
    pub aliases: Vec<String>,
    pub shape: CommandShape,
}

pub struct CommandModel {
    pub name: Seq<char>,
    pub description: Seq<char>,
    pub aliases: Seq<Seq<char>>,
    pub shape: ShapeModel,
}

impl CommandDef {
    pub open spec fn model(&self) -> CommandModel {
        CommandModel {
            name: self.name@,
            description: self.description@,
            aliases: texts(self.aliases@),
            shape: self.shape.model(),
        }
    }
}

pub struct ParamSpecModel {
    pub name: Seq<char>,
    pub param_type: ParamType,
    pub optional: bool,
    pub suffix: Seq<char>,
    pub enum_values: Seq<Seq<char>>,
}

pub struct CommandSpecModel {
    pub name: Seq<char>,
    pub description: Seq<char>,
    pub aliases: Seq<Seq<char>>,
    pub params: Seq<ParamSpecModel>,
}

impl ParamSpec {
    pub open spec fn model(&self) -> ParamSpecModel {
        ParamSpecModel {
            name: self.name@,
            param_type: self.param_type,
            optional: self.optional,
            suffix: self.suffix@,
            enum_values: texts(self.enum_values@),
        }
    }
}

impl CommandSpec {
    pub open spec fn model(&self) -> CommandSpecModel {
        CommandSpecModel {
            name: self.name@,
            description: self.description@,
            aliases: texts(self.aliases@),
            params: self.params@.map_values(|p: ParamSpec| p.model()),
        }
    }
}

/// The advertised form of one parameter.
pub open spec fn param_spec_model(p: ParamModel) -> ParamSpecModel {
    ParamSpecModel {
        name: p.name,
        param_type: p.kind.spec_param_type(),
        optional: p.optional,
        suffix: Seq::empty(),
        enum_values: Seq::empty(),
    }
}

/// Every variant's aliases, variant by variant.
pub open spec fn alias_list(vs: Seq<VariantModel>) -> Seq<Seq<char>>
    decreases vs.len(),
{
    if vs.len() == 0 {
        Seq::empty()
    } else {
        alias_list(vs.drop_last()) + vs.last().aliases
    }
}

/// The names a subcommand token may take: all aliases, then all canonical names.
pub open spec fn subcommand_values(vs: Seq<VariantModel>) -> Seq<Seq<char>> {
    alias_list(vs) + vs.map_values(|v: VariantModel| v.canonical)
}

/// Every variant's parameters, variant by variant.
pub open spec fn all_params(vs: Seq<VariantModel>) -> Seq<ParamModel>
    decreases vs.len(),
{
    if vs.len() == 0 {
        Seq::empty()
    } else {
        all_params(vs.drop_last()) + vs.last().params
    }
}

pub open spec fn has_name(ps: Seq<ParamModel>, n: Seq<char>) -> bool {
    exists|j: int| 0 <= j < ps.len() && (#[trigger] ps[j]).name == n
}

/// The first parameter of each name, in order of first appearance.
pub open spec fn first_occurrences(ps: Seq<ParamModel>) -> Seq<ParamModel>
    decreases ps.len(),
{
    if ps.len() == 0 {
        Seq::empty()
    } else {
        let r = first_occurrences(ps.drop_last());
        if has_name(r, ps.last().name) {
            r
        } else {
            r.push(ps.last())
        }
    }
}

/// How many variants declare a parameter of the given name.
pub open spec fn variants_with(vs: Seq<VariantModel>, n: Seq<char>) -> nat
    decreases vs.len(),
{
    if vs.len() == 0 {
        0
    } else {
        variants_with(vs.drop_last(), n) + if has_name(vs.last().params, n) {
            1nat
        } else {
            0nat
        }
    }
}

/// A merged parameter is optional exactly when some variant lacks it; its
/// type is that of its first declaration.
pub open spec fn merge_one(vs: Seq<VariantModel>, p: ParamModel) -> ParamModel {
    ParamModel { name: p.name, kind: p.kind, optional: variants_with(vs, p.name) < vs.len() }
}

/// One parameter per name over all variants, first declaration first.
pub open spec fn merged_params(vs: Seq<VariantModel>) -> Seq<ParamModel> {
    first_occurrences(all_params(vs)).map_values(|p: ParamModel| merge_one(vs, p))
}

/// The leading `subcommand` parameter of a variant-shaped command.
pub open spec fn subcommand_param(vs: Seq<VariantModel>) -> ParamSpecModel {
    ParamSpecModel {
        name: "subcommand"@,
        param_type: ParamType::ParamEnum,
        optional: false,
        suffix: Seq::empty(),
        enum_values: subcommand_values(vs),
    }
}

/// The specification announced for a command.
pub open spec fn command_spec_model(c: CommandModel) -> CommandSpecModel {
    CommandSpecModel {
        name: c.name,
        description: c.description,
        aliases: c.aliases,
        params: match c.shape {
            ShapeModel::Struct(ps) => ps.map_values(|p: ParamModel| param_spec_model(p)),
            ShapeModel::Enum(vs) => seq![subcommand_param(vs)] + merged_params(vs).map_values(
                |p: ParamModel| param_spec_model(p),
            ),
        },
    }
}


/// A copy of a list of strings.
pub fn copy_strings(v: &Vec<String>) -> (r: Vec<String>)
    ensures
        texts(r@) == texts(v@),
{
    let mut out: Vec<String> = Vec::new();
    let mut i: usize = 0;
    while i < v.len()
        invariant
            0 <= i <= v@.len(),
            texts(out@) == texts(v@.subrange(0, i as int)),
        decreases v@.len() - i,
    {
        out.push(v[i].clone());
        proof {
            assert(texts(v@.subrange(0, i as int + 1)) =~= texts(v@.subrange(0, i as int)).push(
                v@[i as int]@,
            ));
        }
        i = i + 1;
    }
    proof {
        assert(v@.subrange(0, v@.len() as int) =~= v@);
    }
    out
}

/// Whether a parameter of the given name is in the list.
pub fn contains_name(ps: &Vec<ParamMeta>, name: &String) -> (r: bool)
    ensures
        r == has_name(param_models(ps@), name@),
{
    let mut k: usize = 0;
    while k < ps.len()
        invariant
            0 <= k <= ps@.len(),
            forall|j: int| 0 <= j < k ==> ps@[j].name@ != name@,
        decreases ps@.len() - k,
    {
        if ps[k].name == *name {
            proof {
                assert(param_models(ps@)[k as int].name == name@);
            }
            return true;
        }
        k = k + 1;
    }
    proof {
        assert forall|j: int| 0 <= j < param_models(ps@).len() implies (#[trigger] param_models(
            ps@,
        )[j]).name != name@ by {
            assert(ps@[j].name@ != name@);
        }
    }
    false
}

/// The first parameter of each name over all variants.
fn first_params(variants: &Vec<VariantMeta>) -> (r: Vec<ParamMeta>)
    ensures
        param_models(r@) == first_occurrences(all_params(variant_models(variants@))),
{
    let ghost vms = variant_models(variants@);
    let mut out: Vec<ParamMeta> = Vec::new();
    let mut i: usize = 0;
    proof {
        assert(param_models(out@) =~= first_occurrences(all_params(vms.subrange(0, 0))));
    }
    while i < variants.len()
        invariant
            0 <= i <= variants@.len() == vms.len(),
            vms == variant_models(variants@),
            param_models(out@) == first_occurrences(all_params(vms.subrange(0, i as int))),
        decreases variants@.len() - i,
    {
        let ps = &variants[i].params;
        let ghost pre = all_params(vms.subrange(0, i as int));
        let ghost pms = vms[i as int].params;
        proof {
            assert(pms == param_models(ps@));
            assert(pre + pms.subrange(0, 0) =~= pre);
        }
        let mut j: usize = 0;
        while j < ps.len()
            invariant
                0 <= j <= ps@.len() == pms.len(),
                pms == param_models(ps@),
                param_models(out@) == first_occurrences(pre + pms.subrange(0, j as int)),
            decreases ps@.len() - j,
        {
            let p = &ps[j];
            let ghost s = pre + pms.subrange(0, j as int + 1);
            proof {
                assert(s.drop_last() =~= pre + pms.subrange(0, j as int));
                assert(s.last() == p.model());
            }
            if !contains_name(&out, &p.name) {
                out.push(p.duplicate());
                proof {
                    assert(param_models(out@) =~= first_occurrences(s.drop_last()).push(s.last()));
                }
            }
            j = j + 1;
        }
        proof {
            assert(vms.subrange(0, i as int + 1).drop_last() =~= vms.subrange(0, i as int));
            assert(pms.subrange(0, pms.len() as int) =~= pms);
        }
        i = i + 1;
    }
    proof {
        assert(vms.subrange(0, vms.len() as int) =~= vms);
    }
    out
}

/// How many variants declare a parameter of the given name.
fn count_variants_with(variants: &Vec<VariantMeta>, name: &String) -> (r: usize)
    ensures
        r as nat == variants_with(variant_models(variants@), name@),
        r <= variants@.len(),
{
    let ghost vms = variant_models(variants@);
    let mut count: usize = 0;
    let mut i: usize = 0;
    while i < variants.len()
        invariant
            0 <= i <= variants@.len() == vms.len(),
            vms == variant_models(variants@),
            count <= i,
            count as nat == variants_with(vms.subrange(0, i as int), name@),
        decreases variants@.len() - i,
    {
        let has = contains_name(&variants[i].params, name);
        proof {
            assert(vms.subrange(0, i as int + 1).drop_last() =~= vms.subrange(0, i as int));
        }
        if has {
            count = count + 1;
        }
        i = i + 1;
    }
    proof {
        assert(vms.subrange(0, vms.len() as int) =~= vms);
    }
    count
}

/// Merges the variants' parameters: one per name, optional exactly where
/// absent from some variant.
pub fn merge_variant_params(variants: &Vec<VariantMeta>) -> (r: Vec<ParamMeta>)
    ensures
        param_models(r@) == merged_params(variant_models(variants@)),
{
    let ghost vms = variant_models(variants@);
    let firsts = first_params(variants);
    let mut out: Vec<ParamMeta> = Vec::new();
    let mut k: usize = 0;
    while k < firsts.len()
        invariant
            0 <= k <= firsts@.len(),
            vms == variant_models(variants@),
            param_models(firsts@) == first_occurrences(all_params(vms)),
            param_models(out@) == param_models(firsts@).subrange(0, k as int).map_values(
                |p: ParamModel| merge_one(vms, p),
            ),
        decreases firsts@.len() - k,
    {
        let p = &firsts[k];
        let count = count_variants_with(variants, &p.name);
        let ghost before = out@;
        out.push(
            ParamMeta {
                name: p.name.clone(),
                kind: p.kind,
                optional: count < variants.len(),
            },
        );
        proof {
            assert(param_models(out@) =~= param_models(before).push(
                merge_one(vms, param_models(firsts@)[k as int]),
            ));
            assert(param_models(out@) =~= param_models(firsts@).subrange(0, k as int + 1).map_values(
                |p: ParamModel| merge_one(vms, p),
            ));
        }
        k = k + 1;
    }
    proof {
        assert(param_models(firsts@).subrange(0, firsts@.len() as int) =~= param_models(firsts@));
    }
    out
}

/// The names a subcommand token may take.
fn subcommand_names(variants: &Vec<VariantMeta>) -> (r: Vec<String>)
    ensures
        texts(r@) == subcommand_values(variant_models(variants@)),
{
    let ghost vms = variant_models(variants@);
    let mut out: Vec<String> = Vec::new();
    let mut i: usize = 0;
    proof {
        assert(texts(out@) =~= alias_list(vms.subrange(0, 0)));
    }
    while i < variants.len()
        invariant
            0 <= i <= variants@.len() == vms.len(),
            vms == variant_models(variants@),
            texts(out@) == alias_list(vms.subrange(0, i as int)),
        decreases variants@.len() - i,
    {
        let aliases = &variants[i].aliases;
        let ghost pre = alias_list(vms.subrange(0, i as int));
        let ghost al = vms[i as int].aliases;
        proof {
            assert(pre + al.subrange(0, 0) =~= pre);
        }
        let mut j: usize = 0;
        while j < aliases.len()
            invariant
                0 <= j <= aliases@.len() == al.len(),
                al == texts(aliases@),
                texts(out@) == pre + al.subrange(0, j as int),
            decreases aliases@.len() - j,
        {
            let ghost before = out@;
            out.push(aliases[j].clone());
            proof {
                assert(texts(out@) =~= texts(before).push(al[j as int]));
                assert(texts(out@) =~= pre + al.subrange(0, j as int + 1));
            }
            j = j + 1;
        }
        proof {
            assert(vms.subrange(0, i as int + 1).drop_last() =~= vms.subrange(0, i as int));
            assert(al.subrange(0, al.len() as int) =~= al);
        }
        i = i + 1;
    }
    proof {
        assert(vms.subrange(0, vms.len() as int) =~= vms);
    }
    let ghost aliases_part = alias_list(vms);
    let mut i: usize = 0;
    while i < variants.len()
        invariant
            0 <= i <= variants@.len() == vms.len(),
            vms == variant_models(variants@),
            texts(out@) == aliases_part + vms.subrange(0, i as int).map_values(
                |v: VariantModel| v.canonical,
            ),
        decreases variants@.len() - i,
    {
        let ghost before = out@;
        out.push(variants[i].canonical.clone());
        proof {
            assert(texts(out@) =~= texts(before).push(vms[i as int].canonical));
            assert(texts(out@) =~= aliases_part + vms.subrange(0, i as int + 1).map_values(
                |v: VariantModel| v.canonical,
            ));
        }
        i = i + 1;
    }
    proof {
        assert(vms.subrange(0, vms.len() as int) =~= vms);
    }
    out
}

/// The advertised form of one parameter.
pub fn param_to_spec(p: &ParamMeta) -> (r: ParamSpec)
    ensures
        r.model() == param_spec_model(p.model()),
{
    let r = ParamSpec {
        name: p.name.clone(),
        param_type: p.kind.param_type(),
        optional: p.optional,
        suffix: String::new(),
        enum_values: Vec::new(),
    };
    proof {
        assert(texts(r.enum_values@) =~= Seq::<Seq<char>>::empty());
    }
    r
}

/// The advertised forms of a list of parameters, appended to `out`.
fn push_param_specs(out: &mut Vec<ParamSpec>, ps: &Vec<ParamMeta>)
    ensures
        final(out)@.map_values(|q: ParamSpec| q.model()) == old(out)@.map_values(
            |q: ParamSpec| q.model(),
        ) + param_models(ps@).map_values(|p: ParamModel| param_spec_model(p)),
{
    let ghost start = old(out)@.map_values(|q: ParamSpec| q.model());
    let mut k: usize = 0;
    while k < ps.len()
        invariant
            0 <= k <= ps@.len(),
            out@.map_values(|q: ParamSpec| q.model()) == start + param_models(ps@).subrange(
                0,
                k as int,
            ).map_values(|p: ParamModel| param_spec_model(p)),
        decreases ps@.len() - k,
    {
        let ghost before = out@;
        out.push(param_to_spec(&ps[k]));
        proof {
            assert(out@.map_values(|q: ParamSpec| q.model()) =~= before.map_values(
                |q: ParamSpec| q.model(),
            ).push(param_spec_model(param_models(ps@)[k as int])));
            assert(out@.map_values(|q: ParamSpec| q.model()) =~= start + param_models(
                ps@,
            ).subrange(0, k as int + 1).map_values(|p: ParamModel| param_spec_model(p)));
        }
        k = k + 1;
    }
    proof {
        assert(param_models(ps@).subrange(0, ps@.len() as int) =~= param_models(ps@));
    }
}

impl CommandDef {
    /// The specification announced to the host for this command.
    pub fn spec(&self) -> (r: CommandSpec)
        ensures
            r.model() == command_spec_model(self.model()),
    {
        let mut params: Vec<ParamSpec> = Vec::new();
        match &self.shape {
            CommandShape::Struct { params: ps } => {
                push_param_specs(&mut params, ps);
                proof {
                    assert(params@.map_values(|q: ParamSpec| q.model()) =~= param_models(
                        ps@,
                    ).map_values(|p: ParamModel| param_spec_model(p)));
                }
            },
            CommandShape::Enum { variants } => {
                let names = subcommand_names(variants);
                params.push(
                    ParamSpec {
                        name: "subcommand".to_owned(),
                        param_type: ParamType::ParamEnum,
                        optional: false,
                        suffix: String::new(),
                        enum_values: names,
                    },
                );
                let merged = merge_variant_params(variants);
                proof {
                    assert(params@.map_values(|q: ParamSpec| q.model()) =~= seq![
                        subcommand_param(variant_models(variants@)),
                    ]);
                }
                push_param_specs(&mut params, &merged);
            },
        }
        CommandSpec {
            name: self.name.clone(),
            description: self.description.clone(),
            aliases: copy_strings(&self.aliases),
            params,
        }
    }
}


/// Every name in a list is kept by `first_occurrences`, and every kept
/// parameter is one of the list's.
proof fn lemma_first_occurrences(ps: Seq<ParamModel>)
    ensures
        forall|n: Seq<char>| has_name(ps, n) ==> has_name(first_occurrences(ps), n),
        forall|k: int|
            0 <= k < first_occurrences(ps).len() ==> exists|j: int|
                0 <= j < ps.len() && ps[j] == #[trigger] first_occurrences(ps)[k],
    decreases ps.len(),
{
    if ps.len() > 0 {
        let init = ps.drop_last();
        let r = first_occurrences(init);
        lemma_first_occurrences(init);
        let fo = first_occurrences(ps);
        assert forall|n: Seq<char>| has_name(ps, n) implies has_name(fo, n) by {
            let j = choose|j: int| 0 <= j < ps.len() && (#[trigger] ps[j]).name == n;
            if j < ps.len() - 1 {
                assert(init[j] == ps[j]);
                assert(has_name(init, n));
                let q = choose|q: int| 0 <= q < r.len() && (#[trigger] r[q]).name == n;
                if !has_name(r, ps.last().name) {
                    assert(fo[q] == r[q]);
                }
            } else if !has_name(r, ps.last().name) {
                assert(fo[fo.len() - 1] == ps.last());
            }
        }
        assert forall|k: int| 0 <= k < fo.len() implies exists|j: int|
            0 <= j < ps.len() && ps[j] == #[trigger] fo[k] by {
            if k < r.len() {
                assert(fo[k] == r[k]);
                let j = choose|j: int| 0 <= j < init.len() && init[j] == r[k];
                assert(ps[j] == init[j]);
            } else {
                assert(ps[ps.len() - 1] == fo[k]);
            }
        }
    }
}

/// Optionality of merged parameters: a parameter is optional in the merged
/// list exactly when some variant lacks it, whether or not it was declared
/// optional. Every parameter of every variant has a merged counterpart.
pub proof fn lemma_merged_optionality(variants: Seq<VariantMeta>, n: Seq<char>)
    requires
        has_name(all_params(variant_models(variants)), n),
    ensures
        has_name(merged_params(variant_models(variants)), n),
        forall|k: int|
            0 <= k < merged_params(variant_models(variants)).len() && (#[trigger] merged_params(
                variant_models(variants),
            )[k]).name == n ==> (merged_params(variant_models(variants))[k].optional
                <==> variants_with(variant_models(variants), n) < variants.len()),
{
    let vs = variant_models(variants);
    let all = all_params(vs);
    let fo = first_occurrences(all);
    let m = merged_params(vs);
    lemma_first_occurrences(all);
    let q = choose|q: int| 0 <= q < fo.len() && (#[trigger] fo[q]).name == n;
    assert(m[q].name == n);
    assert forall|k: int| 0 <= k < m.len() && (#[trigger] m[k]).name == n implies (m[k].optional
        <==> variants_with(vs, n) < variants.len()) by {
        assert(m[k] == merge_one(vs, fo[k]));
    }
}

} // verus!
