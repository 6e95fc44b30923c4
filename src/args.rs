//! Topology parameters of a synthesis run and their validation.

use crate::text::{decimal, push_decimal};
use vstd::prelude::*;
use vstd::string::StringExecFns;

verus! {

/// The parameters that shape a generated configuration.
#[derive(Debug, Clone, PartialEq)]
pub struct Opt {
    /// Number of devices.
    pub devices_number: u32,
    /// Number of rule chains per device.
    pub chains_number: u32,
    /// Length of each rule chain (internal to a device).
    pub chain_length: u32,
    /// Number of chains seeded by the start rule.
    pub chain_width: u32,
    /// Number of neighbouring devices activated by a chain.
    pub devices_width: u32,
    /// Value injected into each seeded chain by the start rule.
    pub devices_length: u32,
    /// Agent image.
    pub image: String,
    /// Coordinator image.
    pub coordinator_image: String,
    /// Ticking time.
    pub tick: String,
    /// Namespace.
    pub namespace: String,
    /// Included files.
    pub includes: Vec<String>,
    /// Memory controller.
    pub memory_controller: String,
    /// Configuration version.
    pub configuration_version: String,
}

/// Mathematical model of [`Opt`].
pub ghost struct OptView {
    pub devices_number: nat,
    pub chains_number: nat,
    pub chain_length: nat,
    pub chain_width: nat,
    pub devices_width: nat,
    pub devices_length: nat,
    pub image: Seq<char>,
    pub coordinator_image: Seq<char>,
    pub tick: Seq<char>,
    pub namespace: Seq<char>,
    pub includes: Seq<Seq<char>>,
    pub memory_controller: Seq<char>,
    pub configuration_version: Seq<char>,
}

/// The texts of a vector of strings.
pub open spec fn texts(v: Seq<String>) -> Seq<Seq<char>> {
    v.map_values(|s: String| s@)
}

impl View for Opt {
    type V = OptView;

    open spec fn view(&self) -> OptView {
        OptView {
            devices_number: self.devices_number as nat,
            chains_number: self.chains_number as nat,
            chain_length: self.chain_length as nat,
            chain_width: self.chain_width as nat,
            devices_width: self.devices_width as nat,
            devices_length: self.devices_length as nat,
            image: self.image@,
            coordinator_image: self.coordinator_image@,
            tick: self.tick@,
            namespace: self.namespace@,
            includes: texts(self.includes@),
            memory_controller: self.memory_controller@,
            configuration_version: self.configuration_version@,
        }
    }
}

impl OptView {
    /// Every count is at least one and at most `chains_number` chains are seeded.
    pub open spec fn valid(self) -> bool {
        &&& self.devices_number >= 1
        &&& self.chains_number >= 1
        &&& self.chain_length >= 1
        &&& 1 <= self.chain_width <= self.chains_number
        &&& self.devices_width >= 1
        &&& self.devices_length >= 1
    }
}

/// `seq![m]` when `b` holds, else nothing.
pub open spec fn message_if(b: bool, m: Seq<char>) -> Seq<Seq<char>> {
    if b {
        seq![m]
    } else {
        Seq::empty()
    }
}

/// One message per violated constraint of `p`, in field order.
pub open spec fn validation_messages(p: OptView) -> Seq<Seq<char>> {
    message_if(p.devices_number == 0, "Invalid argument: --devices-number must be at least 1"@)
        + message_if(p.chains_number == 0, "Invalid argument: --chains-number must be at least 1"@)
        + message_if(p.chain_length == 0, "Invalid argument: --chain-length must be at least 1"@)
        + message_if(
        p.chain_width == 0 || p.chain_width > p.chains_number,
        "Invalid argument: --chain-width must be in between 1 and --chains-number(="@ + decimal(
            p.chains_number,
        ) + ")"@,
    ) + message_if(p.devices_width == 0, "Invalid argument: --devices-width must be at least 1"@)
        + message_if(p.devices_length == 0, "Invalid argument: --devices-length must be at least 1"@)
}

fn push_message(messages: &mut Vec<String>, m: String)
    ensures
        texts(final(messages)@) == texts(old(messages)@) + seq![m@],
{
    messages.push(m);
    assert(texts(final(messages)@) =~= texts(old(messages)@) + seq![m@]);
}

impl Opt {
    /// Whether every count is at least one and `chain_width` is at most `chains_number`.
    pub fn is_valid(&self) -> (valid: bool)
        ensures
            valid == self@.valid(),
    {
        self.devices_number != 0 && self.chains_number != 0 && self.chain_length != 0
            && self.chain_width != 0 && self.chain_width <= self.chains_number
            && self.devices_width != 0 && self.devices_length != 0
    }

    /// The message of each violated constraint, all of them, in field order;
    /// none exactly when the parameters are valid.
    pub fn validation_errors(&self) -> (messages: Vec<String>)
        ensures
            texts(messages@) == validation_messages(self@),
            messages@.len() == 0 <==> self@.valid(),
    {
        let mut messages: Vec<String> = Vec::new();
        if self.devices_number == 0 {
            push_message(&mut messages, "Invalid argument: --devices-number must be at least 1".to_owned());
        }
        if self.chains_number == 0 {
            push_message(&mut messages, "Invalid argument: --chains-number must be at least 1".to_owned());
        }
        if self.chain_length == 0 {
            push_message(&mut messages, "Invalid argument: --chain-length must be at least 1".to_owned());
        }
        if self.chain_width == 0 || self.chain_width > self.chains_number {
            let mut m = "Invalid argument: --chain-width must be in between 1 and --chains-number(=".to_owned();
            push_decimal(&mut m, self.chains_number as u64);
            m.append(")");
            push_message(&mut messages, m);
        }
        if self.devices_width == 0 {
            push_message(&mut messages, "Invalid argument: --devices-width must be at least 1".to_owned());
        }
        if self.devices_length == 0 {
            push_message(&mut messages, "Invalid argument: --devices-length must be at least 1".to_owned());
        }
        assert(texts(messages@) =~= validation_messages(self@));
        messages
    }
}

} // verus!
