//! The token's own error type and its conversions to and from PSP22 errors.
use vstd::prelude::*;
use crate::psp22::{PSP22Error, Psp22ErrorView};
use vstd::utf8::encode_utf8;
use crate::text::{decimal, push_decimal};

verus! {

/// Errors of the token's own operations.
#[derive(Debug, PartialEq, Eq)]
pub enum OtherError {
    /// Caller is not the contract owner.
    CallerNotOwner,
    /// Stakeholder share is entirely paid out.
    StakeholderSharePaid,
    /// The stakeholder does not exist.
    StakeholderNotFound,
    /// Stakeholder has not yet passed the cliff.
    CliffNotPassed,
    /// It is too soon to pay out for the month.
    PayoutTooEarly,
    /// The payment is too large.
    PaymentTooLarge,
    /// The socket does not exist.
    NoSocket,
    /// The port does not exist.
    NoPort,
    /// The caller is not a contract.
    NotContract,
    /// Only the owner can add a socket to this port.
    PortLocked,
    /// The port cap would be surpassed.
    PortCapSurpassed,
    /// The reward recipient is a contract.
    CannotRewardContract,
    /// The socket contract does not match the registered hash.
    UnsafeContract,
    /// Any other failure, described by text.
    Custom(String),
}

/// The abstract value of an [`OtherError`], with its text as a character sequence.
pub enum OtherErrorView {
    CallerNotOwner,
    StakeholderSharePaid,
    StakeholderNotFound,
    CliffNotPassed,
    PayoutTooEarly,
    PaymentTooLarge,
    NoSocket,
    NoPort,
    NotContract,
    PortLocked,
    PortCapSurpassed,
    CannotRewardContract,
    UnsafeContract,
    Custom(Seq<char>),
}

impl View for OtherError {
    type V = OtherErrorView;

    open spec fn view(&self) -> OtherErrorView {
        match self {
            OtherError::CallerNotOwner => OtherErrorView::CallerNotOwner,
            OtherError::StakeholderSharePaid => OtherErrorView::StakeholderSharePaid,
            OtherError::StakeholderNotFound => OtherErrorView::StakeholderNotFound,
            OtherError::CliffNotPassed => OtherErrorView::CliffNotPassed,
            OtherError::PayoutTooEarly => OtherErrorView::PayoutTooEarly,
            OtherError::PaymentTooLarge => OtherErrorView::PaymentTooLarge,
            OtherError::NoSocket => OtherErrorView::NoSocket,
            OtherError::NoPort => OtherErrorView::NoPort,
            OtherError::NotContract => OtherErrorView::NotContract,
            OtherError::PortLocked => OtherErrorView::PortLocked,
            OtherError::PortCapSurpassed => OtherErrorView::PortCapSurpassed,
            OtherError::CannotRewardContract => OtherErrorView::CannotRewardContract,
            OtherError::UnsafeContract => OtherErrorView::UnsafeContract,
            OtherError::Custom(s) => OtherErrorView::Custom(s@),
        }
    }
}

/// The abstract value of a result whose error is an [`OtherError`].
pub open spec fn other_result<T>(r: Result<T, OtherError>) -> Result<T, OtherErrorView> {
    match r {
        Ok(t) => Ok(t),
        Err(e) => Err(e@),
    }
}

/// Names the text that `format!("{:?}", s)` gives for a string `s`: `s` between double
/// quotes, with its characters escaped as `str::escape_debug` escapes them.
pub uninterp spec fn str_debug(s: Seq<char>) -> Seq<char>;

/// Calls std's `Debug` formatting of a string slice; its contract only names the text
/// (`str_debug`), what the escaping does to each character is left unsaid.
#[verifier::external_body]
fn debug_str(s: &str) -> (r: String)
    ensures
        r@ == str_debug(s@),
{
    format!("{:?}", s)
}

/// The bytes of `b` in decimal, separated by `, `.
pub open spec fn byte_list(b: Seq<u8>) -> Seq<char>
    decreases b.len(),
{
    if b.len() == 0 {
        seq![]
    } else if b.len() == 1 {
        decimal(b[0] as nat)
    } else {
        byte_list(b.drop_last()) + seq![',', ' '] + decimal(b.last() as nat)
    }
}

/// The debug text of a byte vector: its bytes in decimal, separated by `, `,
/// between square brackets.
pub open spec fn bytes_debug(b: Seq<u8>) -> Seq<char> {
    seq!['['] + byte_list(b) + seq![']']
}

/// The debug text of a byte vector, as `format!("{:?}", b)` writes it.
pub fn debug_bytes(b: &Vec<u8>) -> (r: String)
    ensures
        r@ == bytes_debug(b@),
{
    proof {
        reveal_strlit("[");
        reveal_strlit("]");
    }
    let mut s = String::from_str("[");
    let mut i: usize = 0;
    while i < b.len()
        invariant
            0 <= i <= b@.len(),
            s@ == seq!['['] + byte_list(b@.take(i as int)),
        decreases b@.len() - i,
    {
        let ghost before = s@;
        proof {
            reveal_strlit(", ");
        }
        if i > 0 {
            s.append(", ");
        }
        let ghost mid = s@;
        assert(i > 0 ==> mid =~= before + seq![',', ' ']);
        assert(i == 0 ==> mid == before);
        push_decimal(&mut s, b[i] as u128);
        assert(s@ == mid + decimal(b@[i as int] as nat));
        proof {
            let t = b@.take(i as int + 1);
            assert(t.drop_last() =~= b@.take(i as int));
            assert(t.last() == b@[i as int]);
            assert(t.len() == i + 1);
            if i == 0 {
                assert(t[0] == b@[0]);
                assert(byte_list(t) == decimal(b@[0] as nat));
                assert(s@ =~= seq!['['] + byte_list(t));
            } else {
                assert(byte_list(t) == byte_list(b@.take(i as int)) + seq![',', ' '] + decimal(
                    b@[i as int] as nat,
                ));
                assert(s@ =~= seq!['['] + byte_list(t));
            }
        }
        i = i + 1;
    }
    assert(b@.take(b@.len() as int) =~= b@);
    s.append("]");
    s
}

/// The debug text of a one-field variant: `variant(field_debug)`.
pub fn variant_text(variant: &str, field_debug: &str) -> (r: String)
    ensures
        r@ == variant@ + seq!['('] + field_debug@ + seq![')'],
{
    let mut s = String::from_str(variant);
    proof {
        reveal_strlit("(");
        reveal_strlit(")");
    }
    s.append("(");
    s.append(field_debug);
    s.append(")");
    s
}

/// The debug text of an [`OtherError`].
pub open spec fn other_error_text(e: OtherErrorView) -> Seq<char> {
    match e {
        OtherErrorView::CallerNotOwner => "CallerNotOwner"@,
        OtherErrorView::StakeholderSharePaid => "StakeholderSharePaid"@,
        OtherErrorView::StakeholderNotFound => "StakeholderNotFound"@,
        OtherErrorView::CliffNotPassed => "CliffNotPassed"@,
        OtherErrorView::PayoutTooEarly => "PayoutTooEarly"@,
        OtherErrorView::PaymentTooLarge => "PaymentTooLarge"@,
        OtherErrorView::NoSocket => "NoSocket"@,
        OtherErrorView::NoPort => "NoPort"@,
        OtherErrorView::NotContract => "NotContract"@,
        OtherErrorView::PortLocked => "PortLocked"@,
        OtherErrorView::PortCapSurpassed => "PortCapSurpassed"@,
        OtherErrorView::CannotRewardContract => "CannotRewardContract"@,
        OtherErrorView::UnsafeContract => "UnsafeContract"@,
        OtherErrorView::Custom(s) => "Custom"@ + seq!['('] + str_debug(s) + seq![')'],
    }
}

/// The debug text of a [`PSP22Error`].
pub open spec fn psp22_error_text(e: Psp22ErrorView) -> Seq<char> {
    match e {
        Psp22ErrorView::Custom(b) => "Custom"@ + seq!['('] + bytes_debug(b) + seq![')'],
        Psp22ErrorView::InsufficientBalance => "InsufficientBalance"@,
        Psp22ErrorView::InsufficientAllowance => "InsufficientAllowance"@,
        Psp22ErrorView::ZeroRecipientAddress => "ZeroRecipientAddress"@,
        Psp22ErrorView::ZeroSenderAddress => "ZeroSenderAddress"@,
        Psp22ErrorView::SafeTransferCheckFailed(b) => "SafeTransferCheckFailed"@ + seq!['('] + bytes_debug(
            b,
        ) + seq![')'],
    }
}

/// The PSP22 error that a token error becomes: a custom error holding the
/// bytes of its debug text.
pub open spec fn other_into_psp22(e: OtherErrorView) -> Psp22ErrorView {
    Psp22ErrorView::Custom(encode_utf8(other_error_text(e)))
}

/// The token error that a PSP22 error becomes: a custom error holding its debug text.
pub open spec fn psp22_into_other(e: Psp22ErrorView) -> OtherErrorView {
    OtherErrorView::Custom(psp22_error_text(e))
}

impl OtherError {
    /// Converts into a PSP22 error carrying the bytes of this error's debug text.
    pub fn into_psp22(self) -> (r: PSP22Error)
        ensures
            r@ == other_into_psp22(self@),
    {
        let text = match self {
            OtherError::CallerNotOwner => String::from_str("CallerNotOwner"),
            OtherError::StakeholderSharePaid => String::from_str("StakeholderSharePaid"),
            OtherError::StakeholderNotFound => String::from_str("StakeholderNotFound"),
            OtherError::CliffNotPassed => String::from_str("CliffNotPassed"),
            OtherError::PayoutTooEarly => String::from_str("PayoutTooEarly"),
            OtherError::PaymentTooLarge => String::from_str("PaymentTooLarge"),
            OtherError::NoSocket => String::from_str("NoSocket"),
            OtherError::NoPort => String::from_str("NoPort"),
            OtherError::NotContract => String::from_str("NotContract"),
            OtherError::PortLocked => String::from_str("PortLocked"),
            OtherError::PortCapSurpassed => String::from_str("PortCapSurpassed"),
            OtherError::CannotRewardContract => String::from_str("CannotRewardContract"),
            OtherError::UnsafeContract => String::from_str("UnsafeContract"),
            OtherError::Custom(s) => {
                let d = debug_str(s.as_str());
                variant_text("Custom", d.as_str())
            },
        };
        PSP22Error::Custom(text.as_str().as_bytes_vec())
    }

    /// Converts a PSP22 error into a token error carrying the PSP22 error's debug text.
    pub fn from_psp22(e: PSP22Error) -> (r: OtherError)
        ensures
            r@ == psp22_into_other(e@),
    {
        let text = match e {
            PSP22Error::Custom(b) => {
                let d = debug_bytes(&b);
                variant_text("Custom", d.as_str())
            },
            PSP22Error::InsufficientBalance => String::from_str("InsufficientBalance"),
            PSP22Error::InsufficientAllowance => String::from_str("InsufficientAllowance"),
            PSP22Error::ZeroRecipientAddress => String::from_str("ZeroRecipientAddress"),
            PSP22Error::ZeroSenderAddress => String::from_str("ZeroSenderAddress"),
            PSP22Error::SafeTransferCheckFailed(b) => {
                let d = debug_bytes(&b);
                variant_text("SafeTransferCheckFailed", d.as_str())
            },
        };
        OtherError::Custom(text)
    }
}

} // verus!
