//! Errors of the keyboard layer, and the decimal rendering their
//! messages use.

use vstd::prelude::*;

verus! {

/// The digit character for one decimal digit.
pub open spec fn spec_digit_char(d: int) -> char {
    if d == 0 {
        '0'
    } else if d == 1 {
        '1'
    } else if d == 2 {
        '2'
    } else if d == 3 {
        '3'
    } else if d == 4 {
        '4'
    } else if d == 5 {
        '5'
    } else if d == 6 {
        '6'
    } else if d == 7 {
        '7'
    } else if d == 8 {
        '8'
    } else {
        '9'
    }
}

/// The decimal rendering of a non-negative number, most significant digit
/// first, with no leading zeroes.
pub open spec fn spec_decimal(n: int) -> Seq<char>
    decreases n,
{
    if n < 10 {
        seq![spec_digit_char(n)]
    } else {
        spec_decimal(n / 10) + seq![spec_digit_char(n % 10)]
    }
}

fn digit_char(d: u32) -> (r: char)
    requires
        d < 10,
    ensures
        r == spec_digit_char(d as int),
{
    if d == 0 {
        '0'
    } else if d == 1 {
        '1'
    } else if d == 2 {
        '2'
    } else if d == 3 {
        '3'
    } else if d == 4 {
        '4'
    } else if d == 5 {
        '5'
    } else if d == 6 {
        '6'
    } else if d == 7 {
        '7'
    } else if d == 8 {
        '8'
    } else {
        '9'
    }
}

/// Render a number in decimal.
pub fn u32_to_decimal(n: u32) -> (r: String)
    ensures
        r@ == spec_decimal(n as int),
{
    let mut digits: Vec<char> = Vec::new();
    let mut m = n;
    if m < 10 {
        digits.push(digit_char(m));
        proof {
            assert(digits@ =~= spec_decimal(n as int).reverse());
        }
    } else {
        while m >= 10
            invariant
                m >= 1,
                spec_decimal(n as int) == spec_decimal(m as int) + digits@.reverse(),
            decreases m,
        {
            let d = m % 10;
            digits.push(digit_char(d));
            proof {
                assert(digits@.reverse()
                    =~= seq![spec_digit_char(d as int)] + digits@.drop_last().reverse());
            }
            m = m / 10;
        }
        digits.push(digit_char(m));
        proof {
            assert(digits@.reverse()
                =~= seq![spec_digit_char(m as int)] + digits@.drop_last().reverse());
            assert(spec_decimal(m as int) == seq![spec_digit_char(m as int)]);
            assert(spec_decimal(n as int) =~= digits@.reverse());
        }
    }
    let len = digits.len();
    let mut out: Vec<char> = Vec::new();
    let mut i: usize = 0;
    while i < len
        invariant
            len == digits@.len(),
            i <= len,
            out@ == digits@.reverse().take(i as int),
        decreases len - i,
    {
        out.push(digits[len - 1 - i]);
        proof {
            assert(digits@.reverse()[i as int] == digits@[len - 1 - i as int]);
            assert(out@ =~= digits@.reverse().take(i as int + 1));
        }
        i += 1;
    }
    proof {
        assert(digits@.reverse().take(len as int) =~= digits@.reverse());
    }
    crate::text::chars_to_string(&out)
}

/// A failure of the keyboard layer: installing or removing the hook,
/// sending input, another system call, or giving up after bounded retries.
#[derive(Debug, Clone, PartialEq)]
pub enum KeyboardError {
    HookError(String),
    InputError(String),
    SystemError(String),
    RetryTimeout { attempts: u32, message: String },
}

/// The message text of a keyboard error.
pub open spec fn spec_keyboard_error_message(e: KeyboardError) -> Seq<char> {
    match e {
        KeyboardError::HookError(m) => "Failed to set keyboard hook: "@ + m@,
        KeyboardError::InputError(m) => "Input operation failed: "@ + m@,
        KeyboardError::SystemError(m) => "System call failed: "@ + m@,
        KeyboardError::RetryTimeout { attempts, message } => "Operation timed out after "@
            + spec_decimal(attempts as int) + " attempts: "@ + message@,
    }
}

impl KeyboardError {
    /// Describe the error in one line.
    pub fn message(&self) -> (r: String)
        ensures
            r@ == spec_keyboard_error_message(*self),
    {
        match self {
            KeyboardError::HookError(m) => {
                let mut s = String::from_str("Failed to set keyboard hook: ");
                s.append(m.as_str());
                s
            },
            KeyboardError::InputError(m) => {
                let mut s = String::from_str("Input operation failed: ");
                s.append(m.as_str());
                s
            },
            KeyboardError::SystemError(m) => {
                let mut s = String::from_str("System call failed: ");
                s.append(m.as_str());
                s
            },
            KeyboardError::RetryTimeout { attempts, message } => {
                let mut s = String::from_str("Operation timed out after ");
                let num = u32_to_decimal(*attempts);
                s.append(num.as_str());
                s.append(" attempts: ");
                s.append(message.as_str());
                s
            },
        }
    }
}

} // verus!
