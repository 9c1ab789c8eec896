//! Argument lists for the computation network, built with the network's own
//! builder. The builder and the list it yields are outside types; what they
//! hold is named here, and each call into the builder is stated over that
//! name.

use anchor_lang::prelude::Pubkey;
use arcium_anchor::arg_builder::ArgBuilder;
use arcium_client::idl::arcium::types::ArgumentList;
use vstd::prelude::*;

verus! {

/// The network's argument builder, carried through as an opaque value.
#[verifier::external_type_specification]
#[verifier::external_body]
pub struct ExArgBuilder(arcium_anchor::arg_builder::ArgBuilder);

/// The network's finished argument list, carried through as an opaque value.
#[verifier::external_type_specification]
#[verifier::external_body]
pub struct ExArgumentList(arcium_client::idl::arcium::types::ArgumentList);

/// One argument of a computation, with its value.
#[derive(Copy, Clone, Debug, PartialEq, Eq)]
pub enum Argument {
    PlaintextU64(u64),
    PlaintextU128(u128),
    /// A ciphertext of a 128-bit value.
    EncryptedU128([u8; 32]),
    /// The x25519 public key under which the ciphertexts that follow were
    /// made.
    X25519Pubkey([u8; 32]),
    /// `length` bytes of the account `key`, from byte `offset` on.
    Account { key: [u8; 32], offset: u32, length: u32 },
}

/// The arguments that a builder has taken so far, oldest first, each with the
/// value that its entry refers to.
pub uninterp spec fn builder_arguments(builder: ArgBuilder) -> Seq<Argument>;

/// The arguments of a finished list, in order, each with the value that its
/// entry refers to.
pub uninterp spec fn list_arguments(list: ArgumentList) -> Seq<Argument>;

/// `ArgBuilder::new`: a builder that has taken no argument.
#[verifier::external_body]
pub(crate) fn new_builder() -> (builder: ArgBuilder)
    ensures
        builder_arguments(builder) == Seq::<Argument>::empty(),
{
    ArgBuilder::new()
}

/// `ArgBuilder::x25519_pubkey`: appends the key as the last argument. The
/// builder numbers its stored values in a byte, so it is asked for no more
/// than 255 arguments.
#[verifier::external_body]
pub(crate) fn push_x25519_pubkey(builder: ArgBuilder, value: [u8; 32]) -> (pushed: ArgBuilder)
    requires
        builder_arguments(builder).len() < 255,
    ensures
        builder_arguments(pushed) == builder_arguments(builder).push(Argument::X25519Pubkey(value)),
{
    builder.x25519_pubkey(value)
}

/// `ArgBuilder::plaintext_u128`: appends the value as the last argument.
#[verifier::external_body]
pub(crate) fn push_plaintext_u128(builder: ArgBuilder, value: u128) -> (pushed: ArgBuilder)
    requires
        builder_arguments(builder).len() < 255,
    ensures
        builder_arguments(pushed) == builder_arguments(builder).push(
            Argument::PlaintextU128(value),
        ),
{
    builder.plaintext_u128(value)
}

/// `ArgBuilder::plaintext_u64`: appends the value as the last argument.
#[verifier::external_body]
pub(crate) fn push_plaintext_u64(builder: ArgBuilder, value: u64) -> (pushed: ArgBuilder)
    requires
        builder_arguments(builder).len() < 255,
    ensures
        builder_arguments(pushed) == builder_arguments(builder).push(Argument::PlaintextU64(value)),
{
    builder.plaintext_u64(value)
}

/// `ArgBuilder::encrypted_u128`: appends the ciphertext as the last argument.
#[verifier::external_body]
pub(crate) fn push_encrypted_u128(builder: ArgBuilder, value: [u8; 32]) -> (pushed: ArgBuilder)
    requires
        builder_arguments(builder).len() < 255,
    ensures
        builder_arguments(pushed) == builder_arguments(builder).push(
            Argument::EncryptedU128(value),
        ),
{
    builder.encrypted_u128(value)
}

/// `ArgBuilder::account`: appends, as the last argument, a reference to
/// `length` bytes of the account `key` from `offset` on.
#[verifier::external_body]
pub(crate) fn push_account(builder: ArgBuilder, key: [u8; 32], offset: u32, length: u32) -> (pushed:
    ArgBuilder)
    requires
        builder_arguments(builder).len() < 255,
    ensures
        builder_arguments(pushed) == builder_arguments(builder).push(
            Argument::Account { key, offset, length },
        ),
{
    builder.account(Pubkey::new_from_array(key), offset, length)
}

/// `ArgBuilder::build`: the list of the arguments taken.
#[verifier::external_body]
pub(crate) fn finish(builder: ArgBuilder) -> (list: ArgumentList)
    ensures
        list_arguments(list) == builder_arguments(builder),
{
    builder.build()
}

/// The offset under which the network files the definition of the
/// computation called `name`.
pub uninterp spec fn offset_of_name(name: Seq<char>) -> u32;

/// `arcium_anchor::comp_def_offset`: the offset of a computation's
/// definition, which depends on the computation's name alone.
#[verifier::external_body]
pub(crate) fn offset_for(name: &str) -> (offset: u32)
    ensures
        offset == offset_of_name(name@),
{
    arcium_anchor::comp_def_offset(name)
}

} // verus!
