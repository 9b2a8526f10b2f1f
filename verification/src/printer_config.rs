//! How a printer is reached and the checks that its settings must pass.

use vstd::prelude::*;
use crate::errors::DomainError;
use crate::text::{chars_of, decimal, parse_unsigned, parse_unsigned_chars, push_decimal};

verus! {

/// The link over which the printer receives its jobs.
#[derive(Debug, Clone, Copy, PartialEq, Eq, Structural)]
pub enum ConnectionType {
    Tcp,
    Usb,
    Serial,
}

/// The lower-case name of a connection type.
pub open spec fn connection_name(t: ConnectionType) -> Seq<char> {
    match t {
        ConnectionType::Tcp => "tcp"@,
        ConnectionType::Usb => "usb"@,
        ConnectionType::Serial => "serial"@,
    }
}

/// Whether `c`, with an ASCII capital letter lowered, is `t`.
pub open spec fn lowers_to(c: char, t: char) -> bool {
    if 'A' <= c && c <= 'Z' {
        c as u32 + 32 == t as u32
    } else {
        c == t
    }
}

/// Whether `s` becomes `t` once its ASCII capital letters are lowered.
pub open spec fn lowers_to_str(s: Seq<char>, t: Seq<char>) -> bool {
    s.len() == t.len() && forall|i: int| 0 <= i < s.len() ==> lowers_to(#[trigger] s[i], t[i])
}

/// The connection type that `s` names, ignoring case; `None` if it names none.
pub open spec fn connection_named(s: Seq<char>) -> Option<ConnectionType> {
    if lowers_to_str(s, "tcp"@) {
        Some(ConnectionType::Tcp)
    } else if lowers_to_str(s, "usb"@) {
        Some(ConnectionType::Usb)
    } else if lowers_to_str(s, "serial"@) {
        Some(ConnectionType::Serial)
    } else {
        None
    }
}

fn lowers_to_exec(s: &Vec<char>, t: &str) -> (r: bool)
    ensures
        r == lowers_to_str(s@, t@),
{
    let n = s.len();
    if n != t.unicode_len() {
        return false;
    }
    let mut i: usize = 0;
    while i < n
        invariant
            n == s@.len(),
            n == t@.len(),
            i <= n,
            forall|j: int| 0 <= j < i ==> lowers_to(#[trigger] s@[j], t@[j]),
        decreases n - i,
    {
        let c = s[i];
        let d = t.get_char(i);
        let ok = if 'A' <= c && c <= 'Z' {
            (c as u32) + 32 == (d as u32)
        } else {
            c == d
        };
        if !ok {
            return false;
        }
        i = i + 1;
    }
    true
}

impl ConnectionType {
    /// The lower-case name: `tcp`, `usb` or `serial`.
    pub fn as_str(&self) -> (s: &'static str)
        ensures
            s@ == connection_name(*self),
    {
        match self {
            ConnectionType::Tcp => "tcp",
            ConnectionType::Usb => "usb",
            ConnectionType::Serial => "serial",
        }
    }

    /// The connection type named by `s` in any mix of cases. The names hold
    /// no `i` or `k` before a letter that could come from a non-ASCII capital,
    /// so lowering ASCII capitals decides exactly as `str::to_lowercase` does.
    pub fn from_str(s: &str) -> (r: Result<Self, DomainError>)
        ensures
            connection_named(s@) matches Some(t) ==> r == Ok::<ConnectionType, DomainError>(t),
            connection_named(s@) is None ==> (r matches Err(DomainError::InvalidPrinterConfig { field, message })
                && field@ == "connection_type"@
                && message@ == "Unknown connection type: "@ + s@),
    {
        let chars = chars_of(s);
        if lowers_to_exec(&chars, "tcp") {
            Ok(ConnectionType::Tcp)
        } else if lowers_to_exec(&chars, "usb") {
            Ok(ConnectionType::Usb)
        } else if lowers_to_exec(&chars, "serial") {
            Ok(ConnectionType::Serial)
        } else {
            let mut message = String::from_str("Unknown connection type: ");
            message.append(s);
            Err(DomainError::InvalidPrinterConfig { field: String::from_str("connection_type"), message })
        }
    }
}

impl ConnectionType {
    /// The connection type read back from a stored name: TCP when the name
    /// is not one of the three.
    pub fn from_stored(s: &str) -> (r: Self)
        ensures
            r == (match connection_named(s@) {
                Some(t) => t,
                None => ConnectionType::Tcp,
            }),
    {
        match Self::from_str(s) {
            Ok(t) => t,
            Err(_) => ConnectionType::Tcp,
        }
    }
}

/// Every connection type is found again from its name.
pub proof fn lemma_connection_name_round_trip(t: ConnectionType)
    ensures
        connection_named(connection_name(t)) == Some(t),
{
    reveal_strlit("tcp");
    reveal_strlit("usb");
    reveal_strlit("serial");
    let n = connection_name(t);
    match t {
        ConnectionType::Tcp => {
            assert(lowers_to_str(n, "tcp"@));
        },
        ConnectionType::Usb => {
            assert(!lowers_to_str(n, "tcp"@)) by {
                assert(!lowers_to(n[0], "tcp"@[0]));
            }
            assert(lowers_to_str(n, "usb"@));
        },
        ConnectionType::Serial => {
            assert(lowers_to_str(n, "serial"@));
        },
    }
}

/// The pieces of `s` between the separators `sep`, as `str::split` yields them.
pub open spec fn split_on(s: Seq<char>, sep: char) -> Seq<Seq<char>>
    decreases s.len(),
{
    if s.len() == 0 {
        seq![Seq::<char>::empty()]
    } else {
        let prev = split_on(s.drop_last(), sep);
        if s.last() == sep {
            prev.push(Seq::<char>::empty())
        } else {
            prev.update(prev.len() - 1, prev.last().push(s.last()))
        }
    }
}

/// `split_on` always yields at least one piece.
pub proof fn lemma_split_nonempty(s: Seq<char>, sep: char)
    ensures
        split_on(s, sep).len() >= 1,
    decreases s.len(),
{
    if s.len() > 0 {
        lemma_split_nonempty(s.drop_last(), sep);
    }
}

/// Whether `ip` is four dot-separated pieces that each read as a `u8`.
pub open spec fn ip_valid(ip: Seq<char>) -> bool {
    let parts = split_on(ip, '.');
    parts.len() == 4 && forall|i: int| 0 <= i < 4 ==> (#[trigger] parse_unsigned(parts[i], 255)) is Some
}

/// More characters never yield fewer pieces.
pub proof fn lemma_split_grows(s: Seq<char>, sep: char, k: int)
    requires
        0 <= k <= s.len(),
    ensures
        split_on(s.take(k), sep).len() <= split_on(s, sep).len(),
    decreases s.len(),
{
    if k < s.len() {
        assert(s.drop_last().take(k) =~= s.take(k));
        lemma_split_grows(s.drop_last(), sep, k);
        lemma_split_nonempty(s.drop_last(), sep);
    } else {
        assert(s.take(k) =~= s);
    }
}

/// Whether `ip` has the form of an IPv4 address: four pieces split at `.`,
/// each read by `str::parse::<u8>`.
pub fn is_valid_ip(ip: &str) -> (r: bool)
    ensures
        r == ip_valid(ip@),
{
    let chars = chars_of(ip);
    let n = chars.len();
    let mut start: usize = 0;
    let mut count: usize = 1;
    let mut ok = true;
    let mut i: usize = 0;
    assert(chars@.take(0) =~= Seq::<char>::empty());
    while i < n
        invariant
            n == chars@.len(),
            chars@ == ip@,
            start <= i <= n,
            count == split_on(chars@.take(i as int), '.').len(),
            1 <= count <= 4,
            split_on(chars@.take(i as int), '.').last() == chars@.subrange(start as int, i as int),
            ok == (forall|j: int| 0 <= j < count - 1 ==> (#[trigger] parse_unsigned(split_on(chars@.take(i as int), '.')[j], 255)) is Some),
        decreases n - i,
    {
        let ghost prev = split_on(chars@.take(i as int), '.');
        let ghost next_take = chars@.take(i + 1);
        assert(next_take.drop_last() =~= chars@.take(i as int));
        assert(next_take.last() == chars@[i as int]);
        if chars[i] == '.' {
            if count == 4 {
                proof {
                    lemma_split_grows(chars@, '.', i + 1);
                    assert(chars@.take(n as int) =~= chars@);
                }
                return false;
            }
            let part = parse_unsigned_chars(&chars, start, i, 255);
            let ghost old_ok = ok;
            if part.is_none() {
                ok = false;
            }
            proof {
                let next = split_on(next_take, '.');
                assert(next == prev.push(Seq::<char>::empty()));
                assert(next[count - 1] == prev.last());
                assert forall|j: int| 0 <= j < count implies #[trigger] next[j] == prev[j] by {}
                if ok {
                    assert forall|j: int| 0 <= j < count implies (#[trigger] parse_unsigned(next[j], 255)) is Some by {
                        if j < count - 1 {
                            assert(parse_unsigned(prev[j], 255) is Some);
                        }
                    }
                } else if old_ok {
                    assert(parse_unsigned(next[count - 1], 255) is None);
                } else {
                    let w = choose|j: int| 0 <= j < count - 1 && (#[trigger] parse_unsigned(prev[j], 255)) is None;
                    assert(parse_unsigned(next[w], 255) is None);
                }
            }
            count = count + 1;
            start = i + 1;
            i = i + 1;
            assert(chars@.subrange(start as int, i as int) =~= Seq::<char>::empty());
        } else {
            proof {
                let next = split_on(next_take, '.');
                assert(next == prev.update(prev.len() - 1, prev.last().push(chars@[i as int])));
                assert forall|j: int| 0 <= j < count - 1 implies #[trigger] next[j] == prev[j] by {}
                assert(chars@.subrange(start as int, i + 1) =~= prev.last().push(chars@[i as int]));
                if !ok {
                    let w = choose|j: int| 0 <= j < count - 1 && (#[trigger] parse_unsigned(prev[j], 255)) is None;
                    assert(parse_unsigned(next[w], 255) is None);
                }
            }
            i = i + 1;
        }
    }
    assert(chars@.take(n as int) =~= chars@);
    if count != 4 || !ok {
        return false;
    }
    let last = parse_unsigned_chars(&chars, start, n, 255);
    proof {
        let parts = split_on(chars@, '.');
        if last.is_some() {
            assert forall|j: int| 0 <= j < 4 implies (#[trigger] parse_unsigned(parts[j], 255)) is Some by {
                if j < 3 {
                    assert(parse_unsigned(parts[j], 255) is Some);
                }
            }
        }
    }
    last.is_some()
}

/// Checks the settings of a printer in this order, and reports the first one
/// that fails: the resolution (1 to 600 dpi), the label width and height
/// (whose range checks on millimetres, and whose printed values, are given),
/// the columns (1 to 4), the IP address (not empty, then of IPv4 form) and the
/// port (not 0).
pub fn check_printer_settings(
    dpi: u32,
    width_in_range: bool,
    width_text: &str,
    height_in_range: bool,
    height_text: &str,
    columns: u32,
    ip_address: &str,
    port: u16,
) -> (r: Result<(), DomainError>)
    ensures
        r is Ok <==> settings_outcome(dpi, width_in_range, width_text@, height_in_range, height_text@, columns, ip_address@, port) is Ok,
        r matches Err(DomainError::InvalidPrinterConfig { field, message }) ==> settings_outcome(dpi, width_in_range, width_text@, height_in_range, height_text@, columns, ip_address@, port)
            == Err::<(), (Seq<char>, Seq<char>)>((field@, message@)),
        r is Err ==> r matches Err(DomainError::InvalidPrinterConfig { .. }),
{
    if dpi == 0 || dpi > 600 {
        let mut message = String::from_str("DPI must be between 1 and 600, got ");
        push_decimal(&mut message, dpi as u64);
        return Err(DomainError::InvalidPrinterConfig { field: String::from_str("dpi"), message });
    }
    if !width_in_range {
        let mut message = String::from_str("Label width must be between 0 and 200mm, got ");
        message.append(width_text);
        return Err(DomainError::InvalidPrinterConfig { field: String::from_str("label_width_mm"), message });
    }
    if !height_in_range {
        let mut message = String::from_str("Label height must be between 0 and 200mm, got ");
        message.append(height_text);
        return Err(DomainError::InvalidPrinterConfig { field: String::from_str("label_height_mm"), message });
    }
    if columns == 0 || columns > 4 {
        let mut message = String::from_str("Columns must be between 1 and 4, got ");
        push_decimal(&mut message, columns as u64);
        return Err(DomainError::InvalidPrinterConfig { field: String::from_str("columns"), message });
    }
    if ip_address.unicode_len() == 0 {
        return Err(DomainError::InvalidPrinterConfig {
            field: String::from_str("ip_address"),
            message: String::from_str("IP address cannot be empty"),
        });
    }
    if !is_valid_ip(ip_address) {
        let mut message = String::from_str("Invalid IP address format: ");
        message.append(ip_address);
        return Err(DomainError::InvalidPrinterConfig { field: String::from_str("ip_address"), message });
    }
    if port == 0 {
        return Err(DomainError::InvalidPrinterConfig {
            field: String::from_str("port"),
            message: String::from_str("Port cannot be 0"),
        });
    }
    Ok(())
}

/// The outcome of the settings check: `Ok`, or the field and the message of
/// the first check that fails.
pub open spec fn settings_outcome(
    dpi: u32,
    width_in_range: bool,
    width_text: Seq<char>,
    height_in_range: bool,
    height_text: Seq<char>,
    columns: u32,
    ip_address: Seq<char>,
    port: u16,
) -> Result<(), (Seq<char>, Seq<char>)> {
    if dpi == 0 || dpi > 600 {
        Err(("dpi"@, "DPI must be between 1 and 600, got "@ + decimal(dpi as nat)))
    } else if !width_in_range {
        Err(("label_width_mm"@, "Label width must be between 0 and 200mm, got "@ + width_text))
    } else if !height_in_range {
        Err(("label_height_mm"@, "Label height must be between 0 and 200mm, got "@ + height_text))
    } else if columns == 0 || columns > 4 {
        Err(("columns"@, "Columns must be between 1 and 4, got "@ + decimal(columns as nat)))
    } else if ip_address.len() == 0 {
        Err(("ip_address"@, "IP address cannot be empty"@))
    } else if !ip_valid(ip_address) {
        Err(("ip_address"@, "Invalid IP address format: "@ + ip_address))
    } else if port == 0 {
        Err(("port"@, "Port cannot be 0"@))
    } else {
        Ok(())
    }
}


/// An address in IPv4 form is never empty.
pub proof fn lemma_valid_ip_not_empty(ip: Seq<char>)
    ensures
        ip_valid(ip) ==> ip.len() > 0,
{
    if ip.len() == 0 {
        assert(split_on(ip, '.') =~= seq![Seq::<char>::empty()]);
    }
}

/// The settings pass exactly when every value is in range: 1 to 600 dpi,
/// both label sizes in range, 1 to 4 columns, an IPv4 address and a port
/// other than 0. The resolution is checked first: the refusal names `dpi`
/// exactly when the resolution is 0 or above 600, and `columns` exactly when
/// the resolution and sizes pass and the columns are 0 or above 4.
pub proof fn lemma_settings_checks(
    dpi: u32,
    width_in_range: bool,
    width_text: Seq<char>,
    height_in_range: bool,
    height_text: Seq<char>,
    columns: u32,
    ip_address: Seq<char>,
    port: u16,
)
    ensures
        ({
            let r = settings_outcome(dpi, width_in_range, width_text, height_in_range, height_text, columns, ip_address, port);
            &&& r is Ok <==> (1 <= dpi <= 600 && width_in_range && height_in_range && 1 <= columns <= 4
                && ip_valid(ip_address) && port != 0)
            &&& (r matches Err((field, _)) && field == "dpi"@) <==> (dpi == 0 || dpi > 600)
            &&& (r matches Err((field, _)) && field == "columns"@) <==> (1 <= dpi <= 600 && width_in_range && height_in_range
                && (columns == 0 || columns > 4))
            &&& (r matches Err((field, _)) && field == "port"@) <==> (1 <= dpi <= 600 && width_in_range && height_in_range
                && 1 <= columns <= 4 && ip_valid(ip_address) && port == 0)
        }),
{
    lemma_valid_ip_not_empty(ip_address);
    reveal_strlit("dpi");
    reveal_strlit("columns");
    reveal_strlit("port");
    reveal_strlit("label_width_mm");
    reveal_strlit("label_height_mm");
    reveal_strlit("ip_address");
    assert("dpi"@ != "columns"@) by { assert("dpi"@.len() != "columns"@.len()); }
    assert("dpi"@ != "port"@) by { assert("dpi"@.len() != "port"@.len()); }
    assert("dpi"@ != "label_width_mm"@) by { assert("dpi"@.len() != "label_width_mm"@.len()); }
    assert("dpi"@ != "label_height_mm"@) by { assert("dpi"@.len() != "label_height_mm"@.len()); }
    assert("dpi"@ != "ip_address"@) by { assert("dpi"@.len() != "ip_address"@.len()); }
    assert("columns"@ != "port"@) by { assert("columns"@.len() != "port"@.len()); }
    assert("columns"@ != "label_width_mm"@) by { assert("columns"@.len() != "label_width_mm"@.len()); }
    assert("columns"@ != "label_height_mm"@) by { assert("columns"@.len() != "label_height_mm"@.len()); }
    assert("columns"@ != "ip_address"@) by { assert("columns"@.len() != "ip_address"@.len()); }
    assert("port"@ != "label_width_mm"@) by { assert("port"@.len() != "label_width_mm"@.len()); }
    assert("port"@ != "label_height_mm"@) by { assert("port"@.len() != "label_height_mm"@.len()); }
    assert("port"@ != "ip_address"@) by { assert("port"@.len() != "ip_address"@.len()); }
}


/// An IPv4 address is four parts separated by dots, each a decimal number
/// (an optional `+`, then digits) of at most 255.
pub proof fn lemma_ip_parts_at_most_255(ip: Seq<char>)
    ensures
        ip_valid(ip) <==> (split_on(ip, '.').len() == 4 && forall|i: int| 0 <= i < 4 ==>
            (#[trigger] parse_unsigned(split_on(ip, '.')[i], u64::MAX as nat)) is Some
                && parse_unsigned(split_on(ip, '.')[i], u64::MAX as nat)->0 <= 255),
{
    let parts = split_on(ip, '.');
    if parts.len() == 4 {
        if ip_valid(ip) {
            assert forall|i: int| 0 <= i < 4 implies
                (#[trigger] parse_unsigned(parts[i], u64::MAX as nat)) is Some
                && parse_unsigned(parts[i], u64::MAX as nat)->0 <= 255 by {
                assert(parse_unsigned(parts[i], 255) is Some);
            }
        }
        if forall|i: int| 0 <= i < 4 ==> (#[trigger] parse_unsigned(parts[i], u64::MAX as nat)) is Some
            && parse_unsigned(parts[i], u64::MAX as nat)->0 <= 255 {
            assert forall|i: int| 0 <= i < 4 implies (#[trigger] parse_unsigned(parts[i], 255)) is Some by {
                assert(parse_unsigned(parts[i], u64::MAX as nat) is Some);
            }
        }
    }
}

} // verus!
