//! Messages and receipts.

use crate::address::Address;
use crate::bytes::copy_bytes;
use crate::error::ExitCode;
use vstd::prelude::*;

verus! {

/// Number of a method exported by an actor.
pub type MethodNum = u64;

/// A chain height.
pub type ChainEpoch = i64;

/// The method that only transfers value: no actor code runs for it.
pub const METHOD_SEND: MethodNum = 0;

/// The method that initialises a freshly created actor.
pub const METHOD_CONSTRUCTOR: MethodNum = 1;

/// A message, as plain values.
pub struct MessageView {
    pub version: i64,
    pub from: Address,
    pub to: Address,
    pub sequence: u64,
    pub value: u128,
    pub method_num: MethodNum,
    pub params: Seq<u8>,
    pub gas_limit: u64,
    pub gas_fee_cap: u128,
    pub gas_premium: u128,
}

/// A request to invoke a method of an actor, carrying value and a gas budget.
#[derive(Debug, PartialEq, Eq)]
pub struct Message {
    pub version: i64,
    pub from: Address,
    pub to: Address,
    pub sequence: u64,
    pub value: u128,
    pub method_num: MethodNum,
    pub params: Vec<u8>,
    pub gas_limit: u64,
    pub gas_fee_cap: u128,
    pub gas_premium: u128,
}

/// Why a message is malformed.
#[derive(Clone, Copy, Debug, PartialEq, Eq, Structural)]
pub enum MessageError {
    /// The message carries no gas.
    NoGasLimit,
}

impl View for Message {
    type V = MessageView;

    open spec fn view(&self) -> MessageView {
        MessageView {
            version: self.version,
            from: self.from,
            to: self.to,
            sequence: self.sequence,
            value: self.value,
            method_num: self.method_num,
            params: self.params@,
            gas_limit: self.gas_limit,
            gas_fee_cap: self.gas_fee_cap,
            gas_premium: self.gas_premium,
        }
    }
}

impl Clone for Message {
    fn clone(&self) -> (r: Message)
        ensures
            r@ == self@,
    {
        Message {
            version: self.version,
            from: self.from,
            to: self.to,
            sequence: self.sequence,
            value: self.value,
            method_num: self.method_num,
            params: copy_bytes(self.params.as_slice()),
            gas_limit: self.gas_limit,
            gas_fee_cap: self.gas_fee_cap,
            gas_premium: self.gas_premium,
        }
    }
}

impl Message {
    /// Whether the message is well formed: it must carry gas.
    pub open spec fn valid(&self) -> bool {
        self.gas_limit != 0
    }

    /// Checks the syntax of the message.
    pub fn check(&self) -> (r: Result<(), MessageError>)
        ensures
            r is Ok <==> self.valid(),
            r is Err ==> r == Err::<(), MessageError>(MessageError::NoGasLimit),
    {
        if self.gas_limit == 0 {
            return Err(MessageError::NoGasLimit);
        }
        Ok(())
    }
}

/// A receipt, as plain values.
pub struct ReceiptView {
    pub exit_code: ExitCode,
    pub return_data: Seq<u8>,
    pub gas_used: u64,
}

/// The durable outcome of a message.
#[derive(Clone, Debug, PartialEq, Eq)]
pub struct Receipt {
    pub exit_code: ExitCode,
    pub return_data: Vec<u8>,
    pub gas_used: u64,
}

impl View for Receipt {
    type V = ReceiptView;

    open spec fn view(&self) -> ReceiptView {
        ReceiptView {
            exit_code: self.exit_code,
            return_data: self.return_data@,
            gas_used: self.gas_used,
        }
    }
}

} // verus!
