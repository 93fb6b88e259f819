//! Matching a command event against a command and binding its arguments.

use vstd::prelude::*;
use crate::coerce::{ArgModel, ArgValue, opt_model};
use crate::command::{
    CommandParseError, ErrModel, optional_arg, optional_result, parse_optional_arg,
    parse_required_arg, required_arg, texts, value_result,
};
use crate::shape::{
    CommandDef, CommandModel, CommandShape, ParamMeta, ParamModel, ShapeModel, VariantMeta,
    VariantModel, param_models, variant_models,
};
use crate::types::CommandEvent;

verus! {

/// A command event bound to a command: the matched variant, if the command
/// has variants, and one value per parameter of the bound list (`None` for
/// an optional parameter that was not given).
#[derive(Clone, Debug, PartialEq)]
pub struct ParsedCommand {
    pub variant: Option<usize>,
    pub values: Vec<Option<ArgValue>>,
}

pub struct ParsedModel {
    pub variant: Option<int>,
    pub values: Seq<Option<ArgModel>>,
}

impl ParsedCommand {
    pub open spec fn model(&self) -> ParsedModel {
        ParsedModel {
            variant: match self.variant {
                Some(i) => Some(i as int),
                None => None,
            },
            values: self.values@.map_values(|v: Option<ArgValue>| opt_model(v)),
        }
    }
}

pub open spec fn parsed_result(r: Result<ParsedCommand, CommandParseError>) -> Result<
    ParsedModel,
    ErrModel,
> {
    match r {
        Ok(p) => Ok(p.model()),
        Err(e) => Err(e.model()),
    }
}

/// A token names something called `name` with the given aliases.
pub open spec fn name_matches(name: Seq<char>, aliases: Seq<Seq<char>>, tok: Seq<char>) -> bool {
    tok == name || aliases.contains(tok)
}

/// Binds one parameter to the token at `index`.
pub open spec fn bind_param(p: ParamModel, args: Seq<Seq<char>>, index: int) -> Result<
    Option<ArgModel>,
    ErrModel,
> {
    if p.optional {
        optional_arg(args, index, p.name, p.kind)
    } else {
        match required_arg(args, index, p.name, p.kind) {
            Ok(v) => Ok(Some(v)),
            Err(e) => Err(e),
        }
    }
}

/// Binds parameters in order, the `i`-th to token `offset + i`; the first
/// failure is the result.
pub open spec fn bind_params(ps: Seq<ParamModel>, args: Seq<Seq<char>>, offset: int) -> Result<
    Seq<Option<ArgModel>>,
    ErrModel,
>
    decreases ps.len(),
{
    if ps.len() == 0 {
        Ok(Seq::empty())
    } else {
        match bind_params(ps.drop_last(), args, offset) {
            Err(e) => Err(e),
            Ok(vs) => match bind_param(ps.last(), args, offset + ps.len() - 1) {
                Err(e) => Err(e),
                Ok(v) => Ok(vs.push(v)),
            },
        }
    }
}

/// The first variant that a subcommand token names.
pub open spec fn first_variant(vs: Seq<VariantModel>, tok: Seq<char>) -> Option<int>
    decreases vs.len(),
{
    if vs.len() == 0 {
        None
    } else {
        match first_variant(vs.drop_last(), tok) {
            Some(i) => Some(i),
            None => if name_matches(vs.last().canonical, vs.last().aliases, tok) {
                Some(vs.len() - 1)
            } else {
                None
            },
        }
    }
}

/// The outcome of parsing a command event with tokens `args` against `c`.
pub open spec fn parse_model(c: CommandModel, command: Seq<char>, args: Seq<Seq<char>>) -> Result<
    ParsedModel,
    ErrModel,
> {
    if !name_matches(c.name, c.aliases, command) {
        Err(ErrModel::NoMatch)
    } else {
        match c.shape {
            ShapeModel::Struct(ps) => match bind_params(ps, args, 0) {
                Ok(vals) => Ok(ParsedModel { variant: None, values: vals }),
                Err(e) => Err(e),
            },
            ShapeModel::Enum(vs) => if args.len() == 0 {
                Err(ErrModel::Missing("subcommand"@))
            } else {
                match first_variant(vs, args[0]) {
                    None => Err(ErrModel::UnknownSubcommand),
                    Some(i) => match bind_params(vs[i].params, args, 1) {
                        Ok(vals) => Ok(ParsedModel { variant: Some(i), values: vals }),
                        Err(e) => Err(e),
                    },
                }
            },
        }
    }
}

/// Whether `tok` is one of `names`.
pub fn contains_text(names: &Vec<String>, tok: &String) -> (r: bool)
    ensures
        r == texts(names@).contains(tok@),
{
    let mut k: usize = 0;
    while k < names.len()
        invariant
            0 <= k <= names@.len(),
            forall|j: int| 0 <= j < k ==> names@[j]@ != tok@,
        decreases names@.len() - k,
    {
        if names[k] == *tok {
            proof {
                assert(texts(names@)[k as int] == tok@);
            }
            return true;
        }
        k = k + 1;
    }
    proof {
        if texts(names@).contains(tok@) {
            let j = choose|j: int| 0 <= j < texts(names@).len() && texts(names@)[j] == tok@;
            assert(names@[j]@ == tok@);
        }
    }
    false
}

/// Binds one parameter to the token at `index`.
fn bind_one(p: &ParamMeta, args: &Vec<String>, index: usize) -> (r: Result<
    Option<ArgValue>,
    CommandParseError,
>)
    ensures
        optional_result(r) == bind_param(p.model(), texts(args@), index as int),
{
    if p.optional {
        parse_optional_arg(args.as_slice(), index, p.name.as_str(), p.kind)
    } else {
        let r = parse_required_arg(args.as_slice(), index, p.name.as_str(), p.kind);
        proof {
            assert(value_result(r) == required_arg(texts(args@), index as int, p.name@, p.kind));
        }
        match r {
            Ok(v) => Ok(Some(v)),
            Err(e) => Err(e),
        }
    }
}

/// Binds parameters in order from token `offset` on.
pub fn bind_all(ps: &Vec<ParamMeta>, args: &Vec<String>, offset: usize) -> (r: Result<
    Vec<Option<ArgValue>>,
    CommandParseError,
>)
    requires
        offset <= 1,
    ensures
        match r {
            Ok(vals) => bind_params(param_models(ps@), texts(args@), offset as int) == Ok::<
                Seq<Option<ArgModel>>,
                ErrModel,
            >(vals@.map_values(|v: Option<ArgValue>| opt_model(v))),
            Err(e) => bind_params(param_models(ps@), texts(args@), offset as int) == Err::<
                Seq<Option<ArgModel>>,
                ErrModel,
            >(e.model()),
        },
{
    let ghost pms = param_models(ps@);
    let ghost a = texts(args@);
    let mut vals: Vec<Option<ArgValue>> = Vec::new();
    let mut k: usize = 0;
    proof {
        assert(pms.subrange(0, 0) =~= Seq::<ParamModel>::empty());
        assert(vals@.map_values(|v: Option<ArgValue>| opt_model(v)) =~= Seq::<
            Option<ArgModel>,
        >::empty());
    }
    while k < ps.len()
        invariant
            0 <= k <= ps@.len(),
            offset <= 1,
            pms == param_models(ps@),
            a == texts(args@),
            bind_params(pms.subrange(0, k as int), a, offset as int) == Ok::<
                Seq<Option<ArgModel>>,
                ErrModel,
            >(vals@.map_values(|v: Option<ArgValue>| opt_model(v))),
        decreases ps@.len() - k,
    {
        let r = bind_one(&ps[k], args, offset + k);
        proof {
            assert(pms.subrange(0, k as int + 1).drop_last() =~= pms.subrange(0, k as int));
        }
        match r {
            Ok(v) => {
                let ghost before = vals@;
                vals.push(v);
                proof {
                    assert(vals@.map_values(|v: Option<ArgValue>| opt_model(v)) =~= before.map_values(
                        |v: Option<ArgValue>| opt_model(v),
                    ).push(opt_model(v)));
                }
            },
            Err(e) => {
                proof {
                    assert(ps@.len() == pms.len());
                    if k + 1 < ps@.len() {
                        lemma_bind_prefix_err(pms, a, offset as int, k as int + 1);
                    } else {
                        assert(pms.subrange(0, k as int + 1) =~= pms);
                    }
                }
                return Err(e);
            },
        }
        k = k + 1;
    }
    proof {
        assert(pms.subrange(0, pms.len() as int) =~= pms);
    }
    Ok(vals)
}

/// A failure on a prefix is the failure of the whole list.
pub proof fn lemma_bind_prefix_err(ps: Seq<ParamModel>, args: Seq<Seq<char>>, offset: int, k: int)
    requires
        0 <= k <= ps.len(),
        bind_params(ps.subrange(0, k), args, offset) is Err,
    ensures
        bind_params(ps, args, offset) == bind_params(ps.subrange(0, k), args, offset),
    decreases ps.len() - k,
{
    if k < ps.len() {
        assert(ps.subrange(0, k + 1).drop_last() =~= ps.subrange(0, k));
        lemma_bind_prefix_err(ps, args, offset, k + 1);
    } else {
        assert(ps.subrange(0, k) =~= ps);
    }
}

/// The first variant that a subcommand token names.
fn find_variant(variants: &Vec<VariantMeta>, tok: &String) -> (r: Option<usize>)
    ensures
        match r {
            Some(i) => i < variants@.len() && first_variant(variant_models(variants@), tok@) == Some(
                i as int,
            ),
            None => first_variant(variant_models(variants@), tok@) is None,
        },
{
    let ghost vms = variant_models(variants@);
    let mut i: usize = 0;
    while i < variants.len()
        invariant
            0 <= i <= variants@.len() == vms.len(),
            vms == variant_models(variants@),
            first_variant(vms.subrange(0, i as int), tok@) is None,
        decreases variants@.len() - i,
    {
        let v = &variants[i];
        proof {
            assert(vms.subrange(0, i as int + 1).drop_last() =~= vms.subrange(0, i as int));
        }
        if v.canonical == *tok || contains_text(&v.aliases, tok) {
            proof {
                lemma_first_variant_prefix(vms, tok@, i as int + 1);
            }
            return Some(i);
        }
        i = i + 1;
    }
    proof {
        assert(vms.subrange(0, vms.len() as int) =~= vms);
    }
    None
}

/// A variant found in a prefix is the one found in the whole list.
pub proof fn lemma_first_variant_prefix(vs: Seq<VariantModel>, tok: Seq<char>, k: int)
    requires
        0 <= k <= vs.len(),
        first_variant(vs.subrange(0, k), tok) is Some,
    ensures
        first_variant(vs, tok) == first_variant(vs.subrange(0, k), tok),
    decreases vs.len() - k,
{
    if k < vs.len() {
        assert(vs.subrange(0, k + 1).drop_last() =~= vs.subrange(0, k));
        lemma_first_variant_prefix(vs, tok, k + 1);
    } else {
        assert(vs.subrange(0, k) =~= vs);
    }
}

impl CommandDef {
    /// Parses a command event against this command.
    pub fn parse(&self, event: &CommandEvent) -> (r: Result<ParsedCommand, CommandParseError>)
        ensures
            parsed_result(r) == parse_model(self.model(), event.command@, texts(event.args@)),
    {
        if !(event.command == self.name || contains_text(&self.aliases, &event.command)) {
            return Err(CommandParseError::NoMatch);
        }
        match &self.shape {
            CommandShape::Struct { params } => {
                match bind_all(params, &event.args, 0) {
                    Ok(values) => Ok(ParsedCommand { variant: None, values }),
                    Err(e) => Err(e),
                }
            },
            CommandShape::Enum { variants } => {
                if event.args.len() == 0 {
                    return Err(CommandParseError::Missing("subcommand".to_owned()));
                }
                match find_variant(variants, &event.args[0]) {
                    None => Err(CommandParseError::UnknownSubcommand),
                    Some(i) => {
                        proof {
                            assert(variant_models(variants@)[i as int].params == param_models(
                                variants@[i as int].params@,
                            ));
                        }
                        match bind_all(&variants[i].params, &event.args, 1) {
                            Ok(values) => Ok(ParsedCommand { variant: Some(i), values }),
                            Err(e) => Err(e),
                        }
                    },
                }
            },
        }
    }
}


/// A required parameter of a flat command whose token is absent yields
/// `Missing` with that parameter's name, provided the parameters before it
/// bound.
pub proof fn lemma_missing_required(c: CommandDef, event: CommandEvent, i: int)
    requires
        c.shape is Struct,
        name_matches(c.name@, texts(c.aliases@), event.command@),
        0 <= i < c.shape->Struct_params@.len(),
        !c.shape->Struct_params@[i].optional,
        event.args@.len() < i + 1,
        bind_params(param_models(c.shape->Struct_params@).subrange(0, i), texts(event.args@), 0)
            is Ok,
    ensures
        parse_model(c.model(), event.command@, texts(event.args@)) == Err::<ParsedModel, ErrModel>(
            ErrModel::Missing(c.shape->Struct_params@[i].name@),
        ),
{
    let ps = param_models(c.shape->Struct_params@);
    let a = texts(event.args@);
    assert(ps.subrange(0, i + 1).drop_last() =~= ps.subrange(0, i));
    assert(bind_params(ps.subrange(0, i + 1), a, 0) is Err);
    lemma_bind_prefix_err(ps, a, 0, i + 1);
}

/// An optional parameter whose token is absent or empty binds to no value.
pub proof fn lemma_optional_absent_or_empty(p: ParamMeta, args: Vec<String>, index: int)
    requires
        p.optional,
        index >= args@.len() || (0 <= index && args@[index]@.len() == 0),
    ensures
        bind_param(p.model(), texts(args@), index) == Ok::<Option<ArgModel>, ErrModel>(None),
{
}

/// A command token that is an alias parses exactly as the command's name.
pub proof fn lemma_command_alias(c: CommandDef, alias: Seq<char>, args: Seq<Seq<char>>)
    requires
        texts(c.aliases@).contains(alias),
    ensures
        parse_model(c.model(), alias, args) == parse_model(c.model(), c.name@, args),
{
}

/// No variant among the first `k` takes a token that none of them names.
proof fn lemma_no_variant_before(vs: Seq<VariantModel>, tok: Seq<char>, k: int)
    requires
        0 <= k <= vs.len(),
        forall|j: int| 0 <= j < k ==> !name_matches(vs[j].canonical, vs[j].aliases, tok),
    ensures
        first_variant(vs.subrange(0, k), tok) is None,
    decreases k,
{
    if k > 0 {
        assert(vs.subrange(0, k).drop_last() =~= vs.subrange(0, k - 1));
        lemma_no_variant_before(vs, tok, k - 1);
    }
}

/// The variant that the token names first, where no earlier variant takes it.
proof fn lemma_first_variant_at(vs: Seq<VariantModel>, tok: Seq<char>, i: int)
    requires
        0 <= i < vs.len(),
        name_matches(vs[i].canonical, vs[i].aliases, tok),
        forall|j: int| 0 <= j < i ==> !name_matches(vs[j].canonical, vs[j].aliases, tok),
    ensures
        first_variant(vs, tok) == Some(i),
{
    lemma_no_variant_before(vs, tok, i);
    assert(vs.subrange(0, i + 1).drop_last() =~= vs.subrange(0, i));
    lemma_first_variant_prefix(vs, tok, i + 1);
}

/// Binding from token `offset >= 1` on never reads the first token.
proof fn lemma_bind_skips_first(
    ps: Seq<ParamModel>,
    a: Seq<Seq<char>>,
    b: Seq<Seq<char>>,
    offset: int,
)
    requires
        offset >= 1,
        a.len() == b.len(),
        forall|k: int| 1 <= k < a.len() ==> a[k] == b[k],
    ensures
        bind_params(ps, a, offset) == bind_params(ps, b, offset),
    decreases ps.len(),
{
    if ps.len() > 0 {
        lemma_bind_skips_first(ps.drop_last(), a, b, offset);
    }
}

/// A subcommand token that is a variant's alias parses exactly as the
/// variant's canonical name, where no earlier variant claims either name.
pub proof fn lemma_subcommand_alias(c: CommandDef, command: Seq<char>, args: Seq<Seq<char>>, i: int, alias: Seq<char>)
    requires
        c.shape is Enum,
        0 <= i < c.shape->Enum_variants@.len(),
        texts(c.shape->Enum_variants@[i].aliases@).contains(alias),
        args.len() > 0,
        forall|j: int|
            0 <= j < i ==> {
                let v = #[trigger] variant_models(c.shape->Enum_variants@)[j];
                !name_matches(v.canonical, v.aliases, alias) && !name_matches(
                    v.canonical,
                    v.aliases,
                    c.shape->Enum_variants@[i].canonical@,
                )
            },
    ensures
        parse_model(c.model(), command, args.update(0, alias)) == parse_model(
            c.model(),
            command,
            args.update(0, c.shape->Enum_variants@[i].canonical@),
        ),
{
    let vs = variant_models(c.shape->Enum_variants@);
    let canonical = c.shape->Enum_variants@[i].canonical@;
    let a = args.update(0, alias);
    let b = args.update(0, canonical);
    assert(vs[i].canonical == canonical);
    lemma_first_variant_at(vs, alias, i);
    lemma_first_variant_at(vs, canonical, i);
    lemma_bind_skips_first(vs[i].params, a, b, 1);
}

} // verus!
