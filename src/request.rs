//! The parts of a catalog request that are computed rather than sent: the
//! urls, the check of a response's status, and the form fields of a request
//! for rendered CSS.

use vstd::prelude::*;
use crate::settings_map::SettingsMap;

verus! {

/// The decimal digit for `d`, below ten.
pub open spec fn digit(d: nat) -> char {
    seq!['0', '1', '2', '3', '4', '5', '6', '7', '8', '9'][d as int]
}

/// `n` written in decimal, without leading zeros.
pub open spec fn decimal(n: nat) -> Seq<char>
    decreases n,
{
    if n < 10 {
        seq![digit(n)]
    } else {
        decimal(n / 10).push(digit(n % 10))
    }
}

/// The text of the decimal digit `d`.
fn digit_text(d: u32) -> (r: &'static str)
    requires
        d < 10,
    ensures
        r@ == seq![digit(d as nat)],
{
    proof {
        reveal_strlit("0");
        reveal_strlit("1");
        reveal_strlit("2");
        reveal_strlit("3");
        reveal_strlit("4");
        reveal_strlit("5");
        reveal_strlit("6");
        reveal_strlit("7");
        reveal_strlit("8");
        reveal_strlit("9");
    }
    let r = match d {
        0 => "0",
        1 => "1",
        2 => "2",
        3 => "3",
        4 => "4",
        5 => "5",
        6 => "6",
        7 => "7",
        8 => "8",
        _ => "9",
    };
    assert(r@ =~= seq![digit(d as nat)]);
    r
}

/// `n` written in decimal.
pub fn decimal_string(n: u32) -> (r: String)
    ensures
        r@ == decimal(n as nat),
    decreases n,
{
    if n < 10 {
        digit_text(n).to_owned()
    } else {
        let mut r = decimal_string(n / 10);
        r.append(digit_text(n % 10));
        assert(r@ =~= decimal(n as nat));
        r
    }
}

/// The url at which the catalog describes style `id`.
pub open spec fn style_url_spec(id: nat) -> Seq<char> {
    "https://userstyles.org/api/v1/styles/"@ + decimal(id)
}

/// The url at which the catalog renders the CSS of style `id`.
pub open spec fn css_url_spec(id: nat) -> Seq<char> {
    "https://userstyles.org/styles/"@ + decimal(id) + ".css"@
}

/// The status of a successful response.
pub const STATUS_OK: u16 = 200;

/// The message for a response whose status is `status` instead of 200.
pub open spec fn status_message(status: nat) -> Seq<char> {
    "Error during API request. Expected status '200' but got '"@ + decimal(status) + "'"@
}

/// The prefix that the catalog expects on each key and value of a form.
pub open spec fn form_prefix() -> Seq<char> {
    "ik-"@
}

/// The url at which the catalog describes style `id`.
pub fn style_url(id: u32) -> (r: String)
    ensures
        r@ == style_url_spec(id as nat),
{
    let mut r = "https://userstyles.org/api/v1/styles/".to_owned();
    let digits = decimal_string(id);
    r.append(digits.as_str());
    r
}

/// The url at which the catalog renders the CSS of style `id`.
pub fn css_url(id: u32) -> (r: String)
    ensures
        r@ == css_url_spec(id as nat),
{
    let mut r = "https://userstyles.org/styles/".to_owned();
    let digits = decimal_string(id);
    r.append(digits.as_str());
    r.append(".css");
    r
}

/// Accepts a response status of 200 and rejects any other with a message
/// that gives both the expected and the actual status.
pub fn check_status(status: u16) -> (r: Result<(), String>)
    ensures
        r is Ok <==> status == 200,
        r matches Err(e) ==> e@ == status_message(status as nat),
{
    if status == STATUS_OK {
        Ok(())
    } else {
        let mut e = "Error during API request. Expected status '200' but got '".to_owned();
        let digits = decimal_string(status as u32);
        e.append(digits.as_str());
        e.append("'");
        Err(e)
    }
}

/// `s` with the form prefix `ik-` in front.
fn prefixed(s: &String) -> (r: String)
    ensures
        r@ == form_prefix() + s@,
{
    let mut r = "ik-".to_owned();
    r.append(s.as_str());
    r
}

/// The form fields of a request for CSS rendered with `settings`: each key
/// and each value with the prefix `ik-`, in the map's order.
pub fn form_fields(settings: &SettingsMap) -> (r: Vec<(String, String)>)
    requires
        settings.wf(),
    ensures
        r@.len() == settings.entries().len(),
        forall|i: int|
            0 <= i < r@.len() ==> (#[trigger] r@[i]).0@ == form_prefix()
                + settings.entries()[i].0@ && r@[i].1@ == form_prefix()
                + settings.entries()[i].1@,
{
    let entries = settings.as_entries();
    let mut r: Vec<(String, String)> = Vec::new();
    for i in 0..entries.len()
        invariant
            entries@ == settings.entries(),
            r@.len() == i,
            forall|t: int|
                0 <= t < i ==> (#[trigger] r@[t]).0@ == form_prefix() + entries@[t].0@ && r@[t].1@
                    == form_prefix() + entries@[t].1@,
    {
        let key = prefixed(&entries[i].0);
        let value = prefixed(&entries[i].1);
        r.push((key, value));
    }
    r
}

} // verus!
