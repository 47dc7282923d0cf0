//! Privacy filters: applications that are never recorded, password fields,
//! and clipboard contents that look like secrets.
use vstd::prelude::*;
use crate::text::{
    contains, digit_value, has_infix, has_prefix, is_ascii_digit, is_listed, starts_with, str_chars,
    utf8_len, utf8_len_capped,
};
use crate::todo::{opt_string, views};

verus! {

/// Views of a list of string literals.
pub open spec fn str_views(v: Seq<&str>) -> Seq<Seq<char>> {
    Seq::new(v.len(), |i: int| v[i]@)
}

/// The characters of each literal of `lits`, in order.
pub fn literal_list(lits: &[&str]) -> (r: Vec<Vec<char>>)
    ensures
        views(r@) == str_views(lits@),
{
    let mut r: Vec<Vec<char>> = Vec::new();
    let mut i: usize = 0;
    while i < lits.len()
        invariant
            i <= lits.len(),
            r@.len() == i,
            views(r@) == str_views(lits@.take(i as int)),
        decreases lits.len() - i,
    {
        let c = str_chars(lits[i]);
        assert(c@ == lits@[i as int]@);
        let ghost prev = r@;
        r.push(c);
        proof {
            assert forall|k: int| 0 <= k < i implies views(r@)[k] == str_views(lits@.take(i + 1))[k] by {
                assert(r@[k] == prev[k]);
                assert(views(prev)[k] == str_views(lits@.take(i as int))[k]);
            }
        }
        i += 1;
        assert(views(r@) =~= str_views(lits@.take(i as int)));
    }
    assert(lits@.take(lits@.len() as int) =~= lits@);
    r
}

/// `s` is one of the entries of `list`.
pub open spec fn listed(s: Seq<char>, list: Seq<Seq<char>>) -> bool {
    exists|i: int| 0 <= i < list.len() && list[i] == s
}

/// Whether the characters of `s` are one of the entries of `list`.
pub fn in_list(s: &Vec<char>, list: &Vec<Vec<char>>) -> (r: bool)
    ensures
        r == listed(s@, views(list@)),
{
    let r = is_listed(s, list);
    assert(r == listed(s@, views(list@))) by {
        if r {
            let i = choose|i: int| 0 <= i < list@.len() && list@[i]@ == s@;
            assert(views(list@)[i] == s@);
        }
        if listed(s@, views(list@)) {
            let i = choose|i: int| 0 <= i < views(list@).len() && views(list@)[i] == s@;
            assert(list@[i]@ == s@);
        }
    }
    r
}

// ---------------------------------------------------------------------------
// Applications that are never recorded
// ---------------------------------------------------------------------------

/// Password managers, system security agents, banking clients and VPN tools.
pub open spec fn blacklist() -> Seq<Seq<char>> {
    seq![
        "com.agilebits.onepassword7"@,
        "com.agilebits.onepassword-osx"@,
        "com.bitwarden.desktop"@,
        "org.keepassxc.keepassxc"@,
        "com.lastpass.lastpass"@,
        "com.1password.1password"@,
        "com.apple.keychainaccess"@,
        "com.apple.SecurityAgent"@,
        "com.apple.coreservices.uiagent"@,
        "com.icbc.icbcclient"@,
        "com.ccb.ccbclient"@,
        "com.boc.bocclient"@,
        "com.cmb.cmbclient"@,
        "com.tunnelbear.mac.TunnelBear"@,
        "com.openvpn.openvpn"@,
    ]
}

fn blacklist_vec() -> (r: Vec<Vec<char>>)
    ensures
        views(r@) == blacklist(),
{
    let lits = [
        "com.agilebits.onepassword7",
        "com.agilebits.onepassword-osx",
        "com.bitwarden.desktop",
        "org.keepassxc.keepassxc",
        "com.lastpass.lastpass",
        "com.1password.1password",
        "com.apple.keychainaccess",
        "com.apple.SecurityAgent",
        "com.apple.coreservices.uiagent",
        "com.icbc.icbcclient",
        "com.ccb.ccbclient",
        "com.boc.bocclient",
        "com.cmb.cmbclient",
        "com.tunnelbear.mac.TunnelBear",
        "com.openvpn.openvpn",
    ];
    let r = literal_list(&lits);
    assert(str_views(lits@) =~= blacklist());
    r
}

/// Whether input from the application `bundle_id` must never be recorded.
pub fn is_blacklisted_sync(bundle_id: &str) -> (r: bool)
    ensures
        r == listed(bundle_id@, blacklist()),
{
    let v = str_chars(bundle_id);
    in_list(&v, &blacklist_vec())
}

// ---------------------------------------------------------------------------
// Password fields
// ---------------------------------------------------------------------------

/// What `str::to_lowercase` returns for a string (Unicode lower-case mapping).
pub uninterp spec fn unicode_lowercase(s: Seq<char>) -> Seq<char>;

/// `str::to_lowercase`: the Unicode lower-case form of `s`.
#[verifier::external_body]
fn lowercase(s: &str) -> (r: String)
    ensures
        r@ == unicode_lowercase(s@),
{
    s.to_lowercase()
}

/// Applications whose every text field is treated as a password field.
pub open spec fn secure_apps() -> Seq<Seq<char>> {
    seq![
        "com.agilebits.onepassword7"@,
        "com.agilebits.onepassword-osx"@,
        "com.bitwarden.desktop"@,
        "org.keepassxc.keepassxc"@,
        "com.apple.keychainaccess"@,
        "com.apple.SecurityAgent"@,
        "com.1password.1password"@,
        "com.lastpass.lastpass"@,
    ]
}

/// Words in a lower-cased window title that mark a sign-in or password window.
pub open spec fn secure_title_words() -> Seq<Seq<char>> {
    seq!["password"@, "login"@, "sign in"@, "密码"@, "登录"@, "认证"@]
}

/// The window title (lower-cased) holds one of the sign-in words.
pub open spec fn secure_title(title: Seq<char>) -> bool {
    exists|i: int|
        0 <= i < secure_title_words().len() && contains(
            unicode_lowercase(title),
            #[trigger] secure_title_words()[i],
        )
}

/// Where the focused application and window suggest a password field.
pub open spec fn secure_field(bundle_id: Seq<char>, window_title: Option<Seq<char>>) -> bool {
    listed(bundle_id, secure_apps()) || (window_title is Some && secure_title(window_title->0))
}

/// Whether the focused field of `app` is treated as a password field: the
/// application is a password manager or security agent, or its window title
/// speaks of a password, login or sign-in.
pub fn is_secure_text_field(bundle_id: &str, window_title: &Option<String>) -> (r: bool)
    ensures
        r == secure_field(bundle_id@, opt_string(*window_title)),
{
    let v = str_chars(bundle_id);
    let lits = [
        "com.agilebits.onepassword7",
        "com.agilebits.onepassword-osx",
        "com.bitwarden.desktop",
        "org.keepassxc.keepassxc",
        "com.apple.keychainaccess",
        "com.apple.SecurityAgent",
        "com.1password.1password",
        "com.lastpass.lastpass",
    ];
    let apps = literal_list(&lits);
    assert(str_views(lits@) =~= secure_apps());
    if in_list(&v, &apps) {
        return true;
    }
    match window_title {
        Some(title) => {
            let lower = lowercase(title.as_str());
            let lv = str_chars(lower.as_str());
            let words_lits = ["password", "login", "sign in", "密码", "登录", "认证"];
            let words = literal_list(&words_lits);
            assert(str_views(words_lits@) =~= secure_title_words());
            let mut i: usize = 0;
            while i < words.len()
                invariant
                    i <= words.len(),
                    views(words@) == secure_title_words(),
                    lv@ == unicode_lowercase(title@),
                    opt_string(*window_title) == Some(title@),
                    forall|k: int| 0 <= k < i ==> !contains(lv@, #[trigger] secure_title_words()[k]),
                decreases words.len() - i,
            {
                assert(secure_title_words()[i as int] == words@[i as int]@);
                if has_infix(&lv, &words[i]) {
                    assert(contains(unicode_lowercase(title@), secure_title_words()[i as int]));
                    assert(secure_title(title@));
                    assert(opt_string(*window_title) == Some(title@));
                    return true;
                }
                i += 1;
            }
            false
        },
        None => false,
    }
}

// ---------------------------------------------------------------------------
// Secrets on the clipboard
// ---------------------------------------------------------------------------

/// Number of occurrences of `c` in `s`.
pub open spec fn count_char(s: Seq<char>, c: char) -> nat
    decreases s.len(),
{
    if s.len() == 0 {
        0
    } else {
        count_char(s.drop_last(), c) + if s.last() == c {
            1nat
        } else {
            0
        }
    }
}

/// The ASCII digits of `s`, in order.
pub open spec fn ascii_digits(s: Seq<char>) -> Seq<char>
    decreases s.len(),
{
    if s.len() == 0 {
        seq![]
    } else if is_ascii_digit(s.last()) {
        ascii_digits(s.drop_last()).push(s.last())
    } else {
        ascii_digits(s.drop_last())
    }
}

/// One Luhn term: every second digit from the right is doubled, minus 9 when above 9.
pub open spec fn luhn_term(d: nat, doubled: bool) -> nat {
    if doubled {
        if 2 * d > 9 {
            (2 * d - 9) as nat
        } else {
            2 * d
        }
    } else {
        d
    }
}

/// The Luhn sum of the digits `ds`, the last one taken as not doubled when `doubled` is false.
pub open spec fn luhn_sum(ds: Seq<char>, doubled: bool) -> nat
    decreases ds.len(),
{
    if ds.len() == 0 {
        0
    } else {
        luhn_term(digit_value(ds.last()), doubled) + luhn_sum(ds.drop_last(), !doubled)
    }
}

/// The Luhn checksum test for card numbers of at least 13 digits
/// (only the ASCII digits of `s` count).
pub open spec fn luhn_valid(s: Seq<char>) -> bool {
    let ds = ascii_digits(s);
    ds.len() >= 13 && luhn_sum(ds, false) % 10 == 0
}

proof fn lemma_ascii_digits_len(s: Seq<char>)
    ensures
        ascii_digits(s).len() <= s.len(),
        forall|i: int| 0 <= i < ascii_digits(s).len() ==> is_ascii_digit(#[trigger] ascii_digits(s)[i]),
    decreases s.len(),
{
    if s.len() > 0 {
        lemma_ascii_digits_len(s.drop_last());
    }
}

/// The ASCII digits of `v`, in order.
fn digits_of(v: &Vec<char>) -> (r: Vec<char>)
    ensures
        r@ == ascii_digits(v@),
{
    let mut r: Vec<char> = Vec::new();
    let mut i: usize = 0;
    while i < v.len()
        invariant
            i <= v.len(),
            r@ == ascii_digits(v@.take(i as int)),
        decreases v.len() - i,
    {
        assert(v@.take(i + 1).drop_last() =~= v@.take(i as int));
        if '0' <= v[i] && v[i] <= '9' {
            r.push(v[i]);
        }
        i += 1;
    }
    assert(v@.take(v@.len() as int) =~= v@);
    r
}

/// The Luhn checksum test: at least 13 digits and a sum divisible by 10.
pub fn is_luhn_valid(digits: &str) -> (r: bool)
    ensures
        r == luhn_valid(digits@),
{
    let v = str_chars(digits);
    let ds = digits_of(&v);
    if ds.len() < 13 {
        return false;
    }
    proof {
        lemma_ascii_digits_len(v@);
    }
    let mut sum: u32 = 0;
    let mut double = false;
    assert(ds@.take(ds@.len() as int) =~= ds@);
    let mut i = ds.len();
    while i > 0
        invariant
            i <= ds.len(),
            forall|k: int| 0 <= k < ds@.len() ==> is_ascii_digit(#[trigger] ds@[k]),
            sum < 10,
            (sum + luhn_sum(ds@.take(i as int), double)) % 10 == luhn_sum(ds@, false) % 10,
        decreases i,
    {
        let c = ds[i - 1];
        assert(is_ascii_digit(ds@[i - 1]));
        let n = (c as u32) - ('0' as u32);
        let mut val = n;
        if double {
            val = val * 2;
            if val > 9 {
                val = val - 9;
            }
        }
        assert(ds@.take(i as int).drop_last() =~= ds@.take(i - 1));
        assert(val == luhn_term(digit_value(ds@[i - 1]), double));
        let ghost rest = luhn_sum(ds@.take(i - 1), !double);
        let ghost x = sum + val;
        assert(((x % 10) + rest) % 10 == (x + rest) % 10) by (nonlinear_arith)
            requires
                x >= 0,
                rest >= 0,
        ;
        sum = (sum + val) % 10;
        double = !double;
        i -= 1;
    }
    assert(ds@.take(0) =~= Seq::<char>::empty());
    sum == 0
}

/// Clipboard content that looks like a secret or is too long to keep: a JSON
/// web token, an AWS access key, a private key, a card number that passes
/// the Luhn test, or more than 1000 characters.
pub open spec fn sensitive_content(s: Seq<char>) -> bool {
    ||| starts_with(s, "eyJ"@) && s.contains('.') && count_char(s, '.') >= 2
    ||| starts_with(s, "AKIA"@) && 16 <= utf8_len(s) <= 24
    ||| contains(s, "-----BEGIN"@) && contains(s, "PRIVATE KEY-----"@)
    ||| 13 <= ascii_digits(s).len() <= 19 && luhn_valid(ascii_digits(s))
    ||| s.len() > 1000
}

fn count_char_exec(v: &Vec<char>, c: char) -> (r: usize)
    ensures
        r == count_char(v@, c),
{
    let mut n: usize = 0;
    let mut i: usize = 0;
    while i < v.len()
        invariant
            i <= v.len(),
            n == count_char(v@.take(i as int), c),
            n <= i,
        decreases v.len() - i,
    {
        assert(v@.take(i + 1).drop_last() =~= v@.take(i as int));
        if v[i] == c {
            n += 1;
        }
        i += 1;
    }
    assert(v@.take(v@.len() as int) =~= v@);
    n
}

/// Whether clipboard `content` must not be recorded.
pub fn is_sensitive_clipboard_content(content: &str) -> (r: bool)
    ensures
        r == sensitive_content(content@),
{
    let v = str_chars(content);
    let dots = count_char_exec(&v, '.');
    if has_prefix(&v, &str_chars("eyJ")) && crate::text::has_char(&v, '.') && dots >= 2 {
        return true;
    }
    let len = utf8_len_capped(&v, 0, v.len(), 1001);
    assert(v@.subrange(0, v@.len() as int) =~= v@);
    if has_prefix(&v, &str_chars("AKIA")) && len >= 16 && len <= 24 {
        return true;
    }
    if has_infix(&v, &str_chars("-----BEGIN")) && has_infix(&v, &str_chars("PRIVATE KEY-----")) {
        return true;
    }
    let ds = digits_of(&v);
    if ds.len() >= 13 && ds.len() <= 19 {
        let dstr = crate::text::string_of(&ds);
        proof {
            lemma_ascii_digits_len(ds@);
            assert forall|i: int| 0 <= i < ds@.len() implies is_ascii_digit(#[trigger] ds@[i]) by {
                lemma_ascii_digits_len(v@);
            }
            lemma_ascii_digits_all(ds@);
        }
        if is_luhn_valid(dstr.as_str()) {
            return true;
        }
    }
    v.len() > 1000
}

/// The digits of a string made only of digits are the string itself.
proof fn lemma_ascii_digits_all(s: Seq<char>)
    requires
        forall|i: int| 0 <= i < s.len() ==> is_ascii_digit(#[trigger] s[i]),
    ensures
        ascii_digits(s) == s,
    decreases s.len(),
{
    if s.len() > 0 {
        lemma_ascii_digits_all(s.drop_last());
        assert(ascii_digits(s) =~= s);
    }
}

} // verus!
