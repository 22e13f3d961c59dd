//! From a contract's source to its interface descriptor: the names that the
//! contract module exports, checked against what a descriptor can hold, then
//! encoded.
use vstd::prelude::*;
use vstd::utf8::encode_utf8;

use crate::abi::{
    decoded,
    descriptor,
    encode_descriptor,
    entries_from,
    lemma_descriptor_round_trip,
    texts,
    utf8_names,
    MAX_FUNCTIONS,
};
use crate::source::{
    contract_functions,
    contract_names,
    extract_functions,
    first_module,
    function_name,
    is_public_function,
    public_names,
    syntax_of,
    AbiError,
    Member,
    TopItem,
};

verus! {

/// What the names `names` give: no descriptor where there are none, an error
/// where opcodes cannot number them all, else their descriptor.
pub open spec fn descriptor_output(names: Seq<Seq<char>>) -> Result<Option<Seq<u8>>, AbiError> {
    if names.len() == 0 {
        Ok(None)
    } else if names.len() > MAX_FUNCTIONS {
        Err(AbiError::TooManyFunctions)
    } else {
        Ok(Some(descriptor(names)))
    }
}

/// What the items `items` of a source file give.
pub open spec fn items_output(items: Seq<TopItem>) -> Result<Option<Seq<u8>>, AbiError> {
    match contract_names(items) {
        Ok(names) => descriptor_output(names),
        Err(e) => Err(e),
    }
}

/// What the source text `src` gives.
pub open spec fn source_output(src: Seq<char>) -> Result<Option<Seq<u8>>, AbiError> {
    match syntax_of(src) {
        Some(items) => items_output(items),
        None => Err(AbiError::Syntax),
    }
}

/// An outcome with the descriptor's bytes as a sequence.
pub open spec fn output_view(r: Result<Option<Vec<u8>>, AbiError>) -> Result<
    Option<Seq<u8>>,
    AbiError,
> {
    match r {
        Ok(Some(bytes)) => Ok(Some(bytes@)),
        Ok(None) => Ok(None),
        Err(e) => Err(e),
    }
}

/// The descriptor of the exported names `names`, in order: `Ok(None)` where
/// there are none (nothing is to be written), `TooManyFunctions` where there
/// are more than 255.
pub fn descriptor_for_names(names: &Vec<String>) -> (r: Result<Option<Vec<u8>>, AbiError>)
    ensures
        output_view(r) == descriptor_output(texts(names@)),
{
    if names.len() == 0 {
        Ok(None)
    } else if names.len() > MAX_FUNCTIONS {
        Err(AbiError::TooManyFunctions)
    } else {
        Ok(Some(encode_descriptor(names)))
    }
}

/// The descriptor of the contract module among the items `items` of a source
/// file.
pub fn descriptor_for_items(items: &Vec<TopItem>) -> (r: Result<Option<Vec<u8>>, AbiError>)
    ensures
        output_view(r) == items_output(items@),
{
    match contract_functions(items) {
        Ok(names) => descriptor_for_names(&names),
        Err(e) => Err(e),
    }
}

/// The descriptor of the contract in the source text `src`: `Ok(None)` where
/// its contract module exports no function.
pub fn generate(src: &str) -> (r: Result<Option<Vec<u8>>, AbiError>)
    ensures
        output_view(r) == source_output(src@),
{
    match extract_functions(src) {
        Ok(names) => descriptor_for_names(&names),
        Err(e) => Err(e),
    }
}

/// A source file whose contract module exports `N` functions, 1 <= N <= 255,
/// none with a name longer than 255 bytes, gets a descriptor that reads back
/// as exactly `N` records, the `i`-th with the opcode `i` and the name of the
/// `i`-th exported function.
pub proof fn lemma_exported_functions_read_back(items: Seq<TopItem>)
    requires
        contract_names(items) is Ok,
        1 <= contract_names(items)->Ok_0.len() <= MAX_FUNCTIONS,
        forall|i: int|
            0 <= i < contract_names(items)->Ok_0.len() ==> #[trigger] encode_utf8(
                contract_names(items)->Ok_0[i],
            ).len() <= 255,
    ensures
        ({
            let names = contract_names(items)->Ok_0;
            &&& items_output(items) is Ok
            &&& items_output(items)->Ok_0 is Some
            &&& decoded(items_output(items)->Ok_0->0) == Some(entries_from(utf8_names(names), 1))
            &&& entries_from(utf8_names(names), 1).len() == names.len()
            &&& forall|i: int|
                0 <= i < names.len() ==> #[trigger] entries_from(utf8_names(names), 1)[i] == (
                    (i + 1) as u8,
                    encode_utf8(names[i]),
                )
        }),
{
    lemma_descriptor_round_trip(contract_names(items)->Ok_0);
}

/// A contract module without public functions gets no descriptor, and a
/// descriptor that is produced is never empty.
pub proof fn lemma_no_exports_no_descriptor(items: Seq<TopItem>)
    requires
        contract_names(items) is Ok,
    ensures
        items_output(items) == Ok::<Option<Seq<u8>>, AbiError>(None) <==> contract_names(
            items,
        )->Ok_0.len() == 0,
        items_output(items) matches Ok(Some(bytes)) ==> bytes.len() > 0,
{
    let names = contract_names(items)->Ok_0;
    if 0 < names.len() <= MAX_FUNCTIONS {
        let u = utf8_names(names);
        assert(u.drop_first() =~= u.subrange(1, u.len() as int));
        assert(descriptor(names).len() >= 2);
    }
}

/// A source file that declares no module at top level gets an error, never a
/// descriptor.
pub proof fn lemma_no_module_fails(items: Seq<TopItem>)
    requires
        first_module(items) is None,
    ensures
        items_output(items) == Err::<Option<Seq<u8>>, AbiError>(AbiError::NoModule),
{
}

/// The exported names are exactly the names of the members that are public
/// functions, in their order: private functions and other items add nothing.
pub proof fn lemma_exports_are_public_functions(members: Seq<Member>)
    ensures
        public_names(members) == members.filter(|m: Member| is_public_function(m)).map_values(
            |m: Member| function_name(m),
        ),
    decreases members.len(),
{
    reveal(Seq::filter);
    let p = |m: Member| is_public_function(m);
    let f = |m: Member| function_name(m);
    if members.len() > 0 {
        lemma_exports_are_public_functions(members.drop_last());
        let sub = members.drop_last().filter(p);
        if p(members.last()) {
            assert(sub.push(members.last()).map_values(f) =~= sub.map_values(f).push(
                f(members.last()),
            ));
        }
    } else {
        assert(members.filter(p).map_values(f) =~= Seq::empty());
    }
}

/// Wherever the first module has a body, the outcome is that of the names of
/// exactly its direct members that are public functions, in their order, for
/// any number of them: private functions and other items add no record.
pub proof fn lemma_descriptor_lists_public_functions(items: Seq<TopItem>)
    requires
        first_module(items) matches Some(Some(_)),
    ensures
        items_output(items) == descriptor_output(
            first_module(items)->0->0@.filter(|m: Member| is_public_function(m)).map_values(
                |m: Member| function_name(m),
            ),
        ),
{
    lemma_exports_are_public_functions(first_module(items)->0->0@);
}

} // verus!
