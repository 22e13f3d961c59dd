//! What the interface is read from: the items of a contract's source file, as
//! far as they decide which functions it exports.
use vstd::prelude::*;

use crate::abi::texts;

verus! {

/// A direct member of a module.
pub enum Member {
    /// A function item, with its name and whether it is declared `pub`.
    Function { name: String, public: bool },
    /// Any other item: a type, a constant, a nested module, a `use`, ...
    Other,
}

/// A top-level item of a source file.
pub enum TopItem {
    /// A module declaration: `None` where it has no body (`mod name;`), else
    /// its direct members in file order.
    Module { members: Option<Vec<Member>> },
    /// Any other item.
    Other,
}

/// Why no interface could be derived from a source file.
#[derive(Debug, Clone, Copy, PartialEq, Eq, Structural)]
pub enum AbiError {
    /// The text is not a well-formed source file.
    Syntax,
    /// The file declares no module at top level.
    NoModule,
    /// The contract module is declared without a body.
    EmptyModule,
    /// The contract module exports more functions than one-byte opcodes number.
    TooManyFunctions,
}

/// The items of the source text `src`, or `None` where it does not parse.
pub uninterp spec fn syntax_of(src: Seq<char>) -> Option<Seq<TopItem>>;

/// Relies on `syn::parse_file` (syn 3, whose literal parser keeps a literal it
/// does not know as verbatim rather than panicking): whether it parses, and
/// the items it finds, are a function of the text alone. Each item is kept as a module (with its body,
/// where it has one, as its direct members, functions with their name and
/// whether their visibility is `pub`) or as some other item.
#[verifier::external_body]
fn parse_source(src: &str) -> (r: Result<Vec<TopItem>, syn::Error>)
    ensures
        match r {
            Ok(items) => syntax_of(src@) == Some(items@),
            Err(_) => syntax_of(src@) is None,
        },
{
    let file = syn::parse_file(src)?;
    Ok(file.items.into_iter().map(|item| match item {
        syn::Item::Mod(m) => TopItem::Module {
            members: m.content.map(|(_, items)| items.into_iter().map(|it| match it {
                syn::Item::Fn(f) => Member::Function {
                    name: f.sig.ident.to_string(),
                    public: matches!(f.vis, syn::Visibility::Public(_)),
                },
                _ => Member::Other,
            }).collect()),
        },
        _ => TopItem::Other,
    }).collect())
}

#[verifier::external_type_specification]
#[verifier::external_body]
pub struct ExSynError(syn::Error);

/// Whether `m` is a function declared `pub`.
pub open spec fn is_public_function(m: Member) -> bool {
    match m {
        Member::Function { public, .. } => public,
        Member::Other => false,
    }
}

/// The name of a function member.
pub open spec fn function_name(m: Member) -> Seq<char> {
    match m {
        Member::Function { name, .. } => name@,
        Member::Other => Seq::empty(),
    }
}

/// The names of the public functions among `members`, in their order.
pub open spec fn public_names(members: Seq<Member>) -> Seq<Seq<char>>
    decreases members.len(),
{
    if members.len() == 0 {
        Seq::empty()
    } else {
        let rest = public_names(members.drop_last());
        if is_public_function(members.last()) {
            rest.push(function_name(members.last()))
        } else {
            rest
        }
    }
}

/// The body of the first module declared in `items`: `None` where there is
/// no module, `Some(None)` where the first one has no body.
pub open spec fn first_module(items: Seq<TopItem>) -> Option<Option<Vec<Member>>>
    decreases items.len(),
{
    if items.len() == 0 {
        None
    } else {
        match items[0] {
            TopItem::Module { members } => Some(members),
            TopItem::Other => first_module(items.drop_first()),
        }
    }
}

/// The names that the contract module of `items` exports: those of the public
/// functions among the direct members of the first module.
pub open spec fn contract_names(items: Seq<TopItem>) -> Result<Seq<Seq<char>>, AbiError> {
    match first_module(items) {
        None => Err(AbiError::NoModule),
        Some(None) => Err(AbiError::EmptyModule),
        Some(Some(members)) => Ok(public_names(members@)),
    }
}

/// The names of the public functions among `members`, in declaration order.
pub fn public_functions(members: &Vec<Member>) -> (r: Vec<String>)
    ensures
        texts(r@) == public_names(members@),
{
    let mut out: Vec<String> = Vec::new();
    let mut i: usize = 0;
    while i < members.len()
        invariant
            i <= members.len(),
            texts(out@) == public_names(members@.take(i as int)),
        decreases members.len() - i,
    {
        proof {
            assert(members@.take(i + 1).drop_last() =~= members@.take(i as int));
        }
        match &members[i] {
            Member::Function { name, public } => {
                if *public {
                    let ghost before = out@;
                    out.push(name.clone());
                    proof {
                        assert(texts(out@) =~= texts(before).push(name@));
                    }
                }
            },
            Member::Other => {},
        }
        i = i + 1;
    }
    proof {
        assert(members@.take(i as int) =~= members@);
    }
    out
}

/// The names that the contract module among `items` exports. The contract
/// module is the first module declared; later ones are not read.
pub fn contract_functions(items: &Vec<TopItem>) -> (r: Result<Vec<String>, AbiError>)
    ensures
        match r {
            Ok(names) => contract_names(items@) == Ok::<Seq<Seq<char>>, AbiError>(texts(names@)),
            Err(e) => contract_names(items@) == Err::<Seq<Seq<char>>, AbiError>(e),
        },
{
    let mut i: usize = 0;
    proof {
        assert(items@.subrange(0, items@.len() as int) =~= items@);
    }
    while i < items.len()
        invariant
            i <= items.len(),
            first_module(items@) == first_module(items@.subrange(i as int, items@.len() as int)),
        decreases items.len() - i,
    {
        let ghost rest = items@.subrange(i as int, items@.len() as int);
        match &items[i] {
            TopItem::Module { members } => {
                return match members {
                    Some(members) => Ok(public_functions(members)),
                    None => Err(AbiError::EmptyModule),
                };
            },
            TopItem::Other => {},
        }
        proof {
            assert(rest.drop_first() =~= items@.subrange(i + 1, items@.len() as int));
        }
        i = i + 1;
    }
    Err(AbiError::NoModule)
}

/// The names that the source text `src` exports, in declaration order: those
/// of the public functions directly inside its first module.
pub fn extract_functions(src: &str) -> (r: Result<Vec<String>, AbiError>)
    ensures
        match syntax_of(src@) {
            None => r == Err::<Vec<String>, AbiError>(AbiError::Syntax),
            Some(items) => match r {
                Ok(names) => contract_names(items) == Ok::<Seq<Seq<char>>, AbiError>(
                    texts(names@),
                ),
                Err(e) => contract_names(items) == Err::<Seq<Seq<char>>, AbiError>(e),
            },
        },
{
    match parse_source(src) {
        Ok(items) => contract_functions(&items),
        Err(_) => Err(AbiError::Syntax),
    }
}

} // verus!
