//! The reading assistant's temperature display: the state it shows, how an
//! update changes it, when it must be repainted, and the text it paints.
use vstd::prelude::*;

verus! {

/// The state of the temperature display.
#[derive(Clone, Copy, Debug, PartialEq, Eq, Structural)]
pub struct TemperatureState {
    pub temperature: i32,
}

/// The character of a decimal digit.
pub open spec fn digit_char(digit: nat) -> char {
    ((48 + digit) as u8) as char
}

/// The decimal digits of `n`, most significant first, without leading zeros.
pub open spec fn digits(n: nat) -> Seq<char>
    decreases n,
{
    if n < 10 {
        seq![digit_char(n)]
    } else {
        digits(n / 10).push(digit_char(n % 10))
    }
}

/// The decimal representation of `n`, as `Display` writes an integer: a minus
/// sign for a negative number, then the digits of its magnitude.
pub open spec fn decimal(n: int) -> Seq<char> {
    if n < 0 {
        seq!['-'] + digits((-n) as nat)
    } else {
        digits(n as nat)
    }
}

/// The text that the display paints for `temperature`.
pub open spec fn label_text(temperature: int) -> Seq<char> {
    "Temperature: "@ + decimal(temperature)
}

/// Appends a character to a string.
///
/// Trusted: calls `String::push`, which appends the character at the end.
#[verifier::external_body]
fn push_char(text: &mut String, c: char)
    ensures
        final(text)@ == old(text)@.push(c),
{
    text.push(c);
}

/// Appends the decimal digits of `n`.
fn push_digits(text: &mut String, n: u64)
    ensures
        final(text)@ == old(text)@ + digits(n as nat),
    decreases n,
{
    if n >= 10 {
        push_digits(text, n / 10);
    }
    let d: u8 = (n % 10) as u8;
    let c = (48u8 + d) as char;
    proof {
        assert(c == digit_char((n % 10) as nat));
    }
    push_char(text, c);
    proof {
        if n >= 10 {
            assert(digits(n as nat) == digits((n / 10) as nat).push(digit_char((n % 10) as nat)));
        } else {
            assert(digits(n as nat) == seq![digit_char(n as nat)]);
        }
        assert(final(text)@ =~= old(text)@ + digits(n as nat));
    }
}

/// The text of `temperature` in decimal, as `Display` writes it.
pub fn decimal_text(temperature: i32) -> (text: String)
    ensures
        text@ == decimal(temperature as int),
{
    let mut text = String::new();
    let wide: i64 = temperature as i64;
    if wide < 0 {
        push_char(&mut text, '-');
        push_digits(&mut text, (-wide) as u64);
    } else {
        push_digits(&mut text, wide as u64);
    }
    assert(text@ =~= decimal(temperature as int));
    text
}

impl TemperatureState {
    /// The display state after an update command carrying `temperature`.
    pub fn apply_update(&mut self, temperature: i32)
        ensures
            final(self).temperature == temperature,
    {
        self.temperature = temperature;
    }

    /// Whether a change of state from `old_state` to `new_state` needs a repaint:
    /// exactly when the temperature changed.
    pub fn needs_repaint(old_state: &TemperatureState, new_state: &TemperatureState) -> (repaint: bool)
        ensures
            repaint == (old_state.temperature != new_state.temperature),
    {
        old_state.temperature != new_state.temperature
    }

    /// The text that the display paints: `Temperature: ` and the temperature in decimal.
    pub fn label(&self) -> (text: String)
        ensures
            text@ == label_text(self.temperature as int),
    {
        let mut text = String::from_str("Temperature: ");
        proof {
            reveal_strlit("Temperature: ");
        }
        let number = decimal_text(self.temperature);
        text.append(number.as_str());
        text
    }
}

/// Every character of `digits(n)` is a decimal digit, and there is at least one.
pub proof fn lemma_digits_are_digits(n: nat)
    ensures
        digits(n).len() >= 1,
        n >= 10 ==> digits(n).len() >= 2,
        forall|k: int| 0 <= k < digits(n).len() ==> '0' <= #[trigger] digits(n)[k] <= '9',
    decreases n,
{
    if n >= 10 {
        lemma_digits_are_digits(n / 10);
        assert forall|k: int| 0 <= k < digits(n).len() implies '0' <= #[trigger] digits(n)[k] <= '9' by {
            if k < digits(n / 10).len() {
                assert(digits(n)[k] == digits(n / 10)[k]);
            } else {
                assert(digits(n)[k] == digit_char(n % 10));
            }
        };
    }
}

/// Distinct numbers have distinct digits.
pub proof fn lemma_digits_injective(a: nat, b: nat)
    requires
        digits(a) == digits(b),
    ensures
        a == b,
    decreases a,
{
    lemma_digits_are_digits(a);
    lemma_digits_are_digits(b);
    if a < 10 && b < 10 {
        assert(digits(a)[0] == digits(b)[0]);
        assert(((48 + a) as u8) as char == ((48 + b) as u8) as char);
    } else if a >= 10 && b >= 10 {
        let da = digits(a);
        assert(da.drop_last() == digits(a / 10));
        assert(digits(b).drop_last() == digits(b / 10));
        assert(da.last() == digit_char(a % 10));
        assert(digits(b).last() == digit_char(b % 10));
        lemma_digits_injective(a / 10, b / 10);
        assert(a % 10 == b % 10);
    } else {
        assert(digits(a).len() != digits(b).len());
    }
}

/// The display tells temperatures apart: two different temperatures are
/// painted with different texts.
pub proof fn lemma_label_distinguishes(a: int, b: int)
    requires
        a != b,
    ensures
        label_text(a) != label_text(b),
{
    let prefix = "Temperature: "@;
    if label_text(a) == label_text(b) {
        assert(decimal(a) == label_text(a).subrange(prefix.len() as int, label_text(a).len() as int));
        assert(decimal(b) == label_text(b).subrange(prefix.len() as int, label_text(b).len() as int));
        if a < 0 && b < 0 {
            assert(digits((-a) as nat) == decimal(a).drop_first());
            assert(digits((-b) as nat) == decimal(b).drop_first());
            lemma_digits_injective((-a) as nat, (-b) as nat);
        } else if a >= 0 && b >= 0 {
            lemma_digits_injective(a as nat, b as nat);
        } else if a < 0 {
            lemma_digits_are_digits(b as nat);
            assert(decimal(a)[0] == '-');
            assert('0' <= decimal(b)[0] <= '9');
        } else {
            lemma_digits_are_digits(a as nat);
            assert(decimal(b)[0] == '-');
            assert('0' <= decimal(a)[0] <= '9');
        }
    }
}

} // verus!
