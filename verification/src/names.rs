//! Identifiers: which texts are identifiers, and the names that the generator
//! derives from a method's name.
use vstd::prelude::*;
use vstd::string::StrSliceExecFns;
use vstd::string::StringExecFns;

verus! {

/// A character that may begin an identifier.
pub open spec fn is_ident_start(c: char) -> bool {
    c == '_' || ('a' <= c && c <= 'z') || ('A' <= c && c <= 'Z')
}

/// A character that may stand inside an identifier.
pub open spec fn is_ident_continue(c: char) -> bool {
    is_ident_start(c) || ('0' <= c && c <= '9')
}

/// The text is an identifier made of ASCII letters, digits and `_`, and does
/// not begin with a digit.
pub open spec fn is_ident(text: Seq<char>) -> bool {
    &&& text.len() > 0
    &&& is_ident_start(text[0])
    &&& forall|i: int| 0 <= i < text.len() ==> is_ident_continue(#[trigger] text[i])
}

/// Says whether `text` is an identifier.
pub fn is_identifier(text: &str) -> (ok: bool)
    ensures
        ok == is_ident(text@),
{
    let len = text.unicode_len();
    if len == 0 {
        return false;
    }
    let first = text.get_char(0);
    if !(first == '_' || ('a' <= first && first <= 'z') || ('A' <= first && first <= 'Z')) {
        return false;
    }
    let mut i: usize = 1;
    while i < len
        invariant
            1 <= i <= len,
            len == text@.len(),
            is_ident_start(text@[0]),
            forall|j: int| 0 <= j < i ==> is_ident_continue(#[trigger] text@[j]),
        decreases len - i,
    {
        let c = text.get_char(i);
        if !(c == '_' || ('a' <= c && c <= 'z') || ('A' <= c && c <= 'Z') || ('0' <= c && c
            <= '9')) {
            assert(!is_ident_continue(text@[i as int]));
            return false;
        }
        i += 1;
    }
    true
}

/// The character of a decimal digit.
pub open spec fn digit_char(d: nat) -> char {
    if d == 0 {
        '0'
    } else if d == 1 {
        '1'
    } else if d == 2 {
        '2'
    } else if d == 3 {
        '3'
    } else if d == 4 {
        '4'
    } else if d == 5 {
        '5'
    } else if d == 6 {
        '6'
    } else if d == 7 {
        '7'
    } else if d == 8 {
        '8'
    } else {
        '9'
    }
}

/// A number in decimal, without leading zeros.
pub open spec fn decimal(n: nat) -> Seq<char>
    decreases n,
{
    if n < 10 {
        seq![digit_char(n)]
    } else {
        decimal(n / 10).push(digit_char(n % 10))
    }
}

/// The text that comes between a method's name and its version.
pub open spec fn version_infix() -> Seq<char> {
    seq!['_', 'v', 'e', 'r', 's', 'i', 'o', 'n', '_']
}

/// The text that comes before a method's name in the name of its host function.
pub open spec fn host_prefix() -> Seq<char> {
    seq!['h', 'o', 's', 't', '_']
}

/// The name of a method's implementation at one version: `put_version_2`.
pub open spec fn versioned_name(name: Seq<char>, version: u32) -> Seq<char> {
    name + version_infix() + decimal(version as nat)
}

/// The name of the exchangeable host function of a method: `host_put`.
pub open spec fn host_function_name(name: Seq<char>) -> Seq<char> {
    host_prefix() + name
}

/// The name that the generator gives to the function context it passes on.
pub open spec fn function_context_name() -> Seq<char> {
    seq![
        '_', '_', 'f', 'u', 'n', 'c', 't', 'i', 'o', 'n', '_', 'c', 'o', 'n', 't', 'e', 'x', 't',
        '_', '_',
    ]
}

/// The name that the generator gives to the externalities it borrows.
pub open spec fn externalities_name() -> Seq<char> {
    seq![
        '_', '_', 'e', 'x', 't', 'e', 'r', 'n', 'a', 'l', 'i', 't', 'i', 'e', 's', '_', '_',
    ]
}

/// A name that the generator introduces itself; no argument may have it.
pub open spec fn is_synthetic_name(name: Seq<char>) -> bool {
    name == function_context_name() || name == externalities_name()
}

fn digit_text(d: u32) -> (text: &'static str)
    requires
        d < 10,
    ensures
        text@ == seq![digit_char(d as nat)],
{
    proof {
        reveal_strlit("0");
        reveal_strlit("1");
        reveal_strlit("2");
        reveal_strlit("3");
        reveal_strlit("4");
        reveal_strlit("5");
        reveal_strlit("6");
        reveal_strlit("7");
        reveal_strlit("8");
        reveal_strlit("9");
    }
    let text = if d == 0 {
        "0"
    } else if d == 1 {
        "1"
    } else if d == 2 {
        "2"
    } else if d == 3 {
        "3"
    } else if d == 4 {
        "4"
    } else if d == 5 {
        "5"
    } else if d == 6 {
        "6"
    } else if d == 7 {
        "7"
    } else if d == 8 {
        "8"
    } else {
        "9"
    };
    assert(text@ =~= seq![digit_char(d as nat)]);
    text
}

/// Writes a number in decimal.
pub fn decimal_text(n: u32) -> (text: String)
    ensures
        text@ == decimal(n as nat),
    decreases n,
{
    if n < 10 {
        String::from_str(digit_text(n))
    } else {
        let mut text = decimal_text(n / 10);
        text.append(digit_text(n % 10));
        assert(text@ =~= decimal(n as nat));
        text
    }
}

/// The name of the implementation of `name` at `version`.
pub fn create_function_ident_with_version(name: &str, version: u32) -> (ident: String)
    ensures
        ident@ == versioned_name(name@, version),
{
    proof {
        reveal_strlit("_version_");
    }
    let mut ident = String::from_str(name);
    ident.append("_version_");
    let digits = decimal_text(version);
    ident.append(digits.as_str());
    assert("_version_"@ =~= version_infix());
    ident
}

/// The name of the exchangeable host function of the method `name`.
pub fn create_exchangeable_host_function_ident(name: &str) -> (ident: String)
    ensures
        ident@ == host_function_name(name@),
{
    proof {
        reveal_strlit("host_");
    }
    let mut ident = String::from_str("host_");
    ident.append(name);
    assert("host_"@ =~= host_prefix());
    ident
}

/// Says whether `name` is one of the names that the generator introduces.
pub fn is_synthetic(name: &str) -> (yes: bool)
    ensures
        yes == is_synthetic_name(name@),
{
    proof {
        reveal_strlit("__function_context__");
        reveal_strlit("__externalities__");
    }
    assert("__function_context__"@ =~= function_context_name());
    assert("__externalities__"@ =~= externalities_name());
    str_eq(name, "__function_context__") || str_eq(name, "__externalities__")
}

/// Says whether two texts are equal.
pub fn str_eq(a: &str, b: &str) -> (equal: bool)
    ensures
        equal == (a@ == b@),
{
    let len = a.unicode_len();
    if len != b.unicode_len() {
        return false;
    }
    let mut i: usize = 0;
    while i < len
        invariant
            i <= len,
            len == a@.len(),
            len == b@.len(),
            forall|j: int| 0 <= j < i ==> a@[j] == b@[j],
        decreases len - i,
    {
        if a.get_char(i) != b.get_char(i) {
            return false;
        }
        i += 1;
    }
    assert(a@ =~= b@);
    true
}

/// Every digit string is made of characters that may stand inside an
/// identifier.
pub proof fn lemma_decimal_digits(n: nat)
    ensures
        decimal(n).len() > 0,
        forall|i: int|
            0 <= i < decimal(n).len() ==> '0' <= #[trigger] decimal(n)[i] && decimal(n)[i] <= '9',
    decreases n,
{
    if n >= 10 {
        lemma_decimal_digits(n / 10);
    }
}

/// A versioned name of an identifier is an identifier.
pub proof fn lemma_versioned_name_is_ident(name: Seq<char>, version: u32)
    requires
        is_ident(name),
    ensures
        is_ident(versioned_name(name, version)),
{
    lemma_decimal_digits(version as nat);
    let d = decimal(version as nat);
    let v = versioned_name(name, version);
    assert forall|i: int| 0 <= i < v.len() implies is_ident_continue(#[trigger] v[i]) by {
        if i < name.len() {
            assert(v[i] == name[i]);
        } else if i < name.len() + 9 {
            assert(v[i] == version_infix()[i - name.len()]);
        } else {
            assert(v[i] == d[i - name.len() - 9]);
        }
    }
    assert(v[0] == name[0]);
}

/// The name of a host function is an identifier whatever identifier the
/// method's name is.
pub proof fn lemma_host_function_name_is_ident(name: Seq<char>)
    requires
        is_ident(name),
    ensures
        is_ident(host_function_name(name)),
{
    let h = host_function_name(name);
    assert forall|i: int| 0 <= i < h.len() implies is_ident_continue(#[trigger] h[i]) by {
        if i < 5 {
            assert(h[i] == host_prefix()[i]);
        } else {
            assert(h[i] == name[i - 5]);
        }
    }
    assert(h[0] == host_prefix()[0]);
}

/// Two numbers with the same decimal digits are the same number.
pub proof fn lemma_decimal_injective(n: nat, m: nat)
    requires
        decimal(n) == decimal(m),
    ensures
        n == m,
    decreases n,
{
    lemma_decimal_digits(n / 10);
    lemma_decimal_digits(m / 10);
    if n < 10 {
        assert(decimal(n).len() == 1);
        if m >= 10 {
            assert(decimal(m).len() == decimal(m / 10).len() + 1);
        }
        assert(decimal(n)[0] == digit_char(n));
        assert(decimal(m)[0] == digit_char(m));
        lemma_digit_char_injective(n, m);
    } else {
        assert(decimal(n).len() == decimal(n / 10).len() + 1);
        if m < 10 {
            assert(decimal(m).len() == 1);
        }
        let front_n = decimal(n / 10);
        let front_m = decimal(m / 10);
        assert(decimal(n).drop_last() =~= front_n);
        assert(decimal(m).drop_last() =~= front_m);
        assert(decimal(n).last() == digit_char(n % 10));
        assert(decimal(m).last() == digit_char(m % 10));
        lemma_decimal_injective(n / 10, m / 10);
        lemma_digit_char_injective(n % 10, m % 10);
    }
}

/// Two digits with the same character are the same digit.
pub proof fn lemma_digit_char_injective(a: nat, b: nat)
    requires
        a < 10,
        b < 10,
        digit_char(a) == digit_char(b),
    ensures
        a == b,
{
}

/// A versioned name tells the method's name and the version: two of them are
/// equal only where both are.
pub proof fn lemma_versioned_name_injective(
    name: Seq<char>,
    version: u32,
    other_name: Seq<char>,
    other_version: u32,
)
    requires
        versioned_name(name, version) == versioned_name(other_name, other_version),
    ensures
        name == other_name,
        version == other_version,
{
    let digits = decimal(version as nat);
    let other_digits = decimal(other_version as nat);
    let text = versioned_name(name, version);
    let other_text = versioned_name(other_name, other_version);
    lemma_decimal_digits(version as nat);
    lemma_decimal_digits(other_version as nat);
    assert(text.len() == name.len() + 9 + digits.len());
    assert(other_text.len() == other_name.len() + 9 + other_digits.len());
    if digits.len() < other_digits.len() {
        let at = (name.len() + 8) as int;
        assert(text[at] == version_infix()[8]);
        assert(other_text[at] == other_digits[at - other_name.len() - 9]);
        assert(false);
    }
    if other_digits.len() < digits.len() {
        let at = (other_name.len() + 8) as int;
        assert(other_text[at] == version_infix()[8]);
        assert(text[at] == digits[at - name.len() - 9]);
        assert(false);
    }
    assert(name.len() == other_name.len());
    assert forall|i: int| 0 <= i < name.len() implies name[i] == other_name[i] by {
        assert(text[i] == name[i]);
        assert(other_text[i] == other_name[i]);
    }
    assert(name =~= other_name);
    assert forall|i: int| 0 <= i < digits.len() implies digits[i] == other_digits[i] by {
        assert(text[name.len() + 9 + i] == digits[i]);
        assert(other_text[name.len() + 9 + i] == other_digits[i]);
    }
    assert(digits =~= other_digits);
    lemma_decimal_injective(version as nat, other_version as nat);
}

} // verus!
