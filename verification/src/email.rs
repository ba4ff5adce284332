//! E-mail alerts about detected drones: the message text, and the SMTP settings.

use vstd::prelude::*;
use crate::output::{format_mac, mac_text};
use crate::text::{push_signed_decimal, signed_decimal};

verus! {

/// A drone detection to announce by e-mail.
pub struct DroneAlert {
    pub transport: &'static str,
    pub mac: [u8; 6],
    pub rssi: i8,
}

impl DroneAlert {
    /// `Buzzkill: drone detected [<mac>]`
    pub open spec fn subject_text(&self) -> Seq<char> {
        "Buzzkill: drone detected ["@ + mac_text(self.mac@) + "]"@
    }

    /// The transport, address and signal strength, one per line.
    pub open spec fn body_text(&self) -> Seq<char> {
        "A drone has been detected.\n\nTransport: "@ + self.transport@ + "\nMAC: "@ + mac_text(
            self.mac@,
        ) + "\nRSSI: "@ + signed_decimal(self.rssi as int) + " dBm\n"@
    }

    /// The subject line of the alert.
    pub fn subject(&self) -> (s: String)
        ensures
            s@ == self.subject_text(),
    {
        let mut s = String::from_str("Buzzkill: drone detected [");
        let m = format_mac(&self.mac);
        s.append(m.as_str());
        s.append("]");
        s
    }

    /// The body of the alert.
    pub fn body(&self) -> (s: String)
        ensures
            s@ == self.body_text(),
    {
        let mut s = String::from_str("A drone has been detected.\n\nTransport: ");
        s.append(self.transport);
        s.append("\nMAC: ");
        let m = format_mac(&self.mac);
        s.append(m.as_str());
        s.append("\nRSSI: ");
        push_signed_decimal(&mut s, self.rssi);
        s.append(" dBm\n");
        s
    }
}

#[verifier::external_type_specification]
#[verifier::external_body]
pub struct ExAddress(lettre::Address);

/// What parsing `text` as a `lettre::Address` rejects: `None` when lettre
/// accepts it as an address, otherwise the text of lettre's `AddressError`.
pub uninterp spec fn address_rejection(text: Seq<char>) -> Option<Seq<char>>;

/// Calls `<lettre::Address as FromStr>::from_str`; an error comes back as its
/// `Display` text. Whether `text` is accepted, and the error's text, are named
/// by `address_rejection`. The address it returns is opaque here: that it
/// holds `text` (lettre keeps the parsed string) is not stated.
#[verifier::external_body]
fn parse_address(text: &str) -> (r: Result<lettre::Address, String>)
    ensures
        match r {
            Ok(_) => address_rejection(text@) is None,
            Err(reason) => address_rejection(text@) == Some(reason@),
        },
{
    match text.parse::<lettre::Address>() {
        Ok(a) => Ok(a),
        Err(e) => Err(e.to_string()),
    }
}

/// SMTP settings for drone alerts. The sender and recipient are address
/// texts that lettre accepts as `lettre::Address`.
pub struct SmtpConfig {
    pub host: String,
    pub username: String,
    pub password: String,
    pub from: String,
    pub to: String,
}

/// The complaint about the settings, in the order they are checked: a missing
/// user name, password, sender or recipient, or an address that lettre
/// rejects. `None` when the settings are complete and valid.
pub open spec fn smtp_settings_error(
    username: Option<Seq<char>>,
    password: Option<Seq<char>>,
    from: Option<Seq<char>>,
    to: Option<Seq<char>>,
) -> Option<Seq<char>> {
    if username is None {
        Some("SMTP_HOST is set but SMTP_USERNAME is missing"@)
    } else if password is None {
        Some("SMTP_HOST is set but SMTP_PASSWORD is missing"@)
    } else if from is None {
        Some("SMTP_HOST is set but ALERT_FROM is missing"@)
    } else if address_rejection(from.unwrap()) is Some {
        Some("invalid ALERT_FROM address: "@ + address_rejection(from.unwrap()).unwrap())
    } else if to is None {
        Some("SMTP_HOST is set but ALERT_TO is missing"@)
    } else if address_rejection(to.unwrap()) is Some {
        Some("invalid ALERT_TO address: "@ + address_rejection(to.unwrap()).unwrap())
    } else {
        None
    }
}

/// The characters of an optional string.
pub open spec fn opt_view(s: Option<String>) -> Option<Seq<char>> {
    match s {
        Some(t) => Some(t@),
        None => None,
    }
}

impl SmtpConfig {
    /// Validate the SMTP settings read from the environment (`SMTP_HOST`,
    /// `SMTP_USERNAME`, `SMTP_PASSWORD`, `ALERT_FROM`, `ALERT_TO`; `None` for
    /// one that is unset). Returns `Ok(None)` if the host is unset, or `Err`
    /// if the settings are partial or an address is invalid; otherwise the
    /// settings as given, the sender from `ALERT_FROM` and the recipient from
    /// `ALERT_TO`.
    pub fn from_env(
        host: Option<String>,
        username: Option<String>,
        password: Option<String>,
        from: Option<String>,
        to: Option<String>,
    ) -> (r: Result<Option<SmtpConfig>, String>)
        ensures
            host is None ==> r matches Ok(None),
            host is Some ==> match smtp_settings_error(
                opt_view(username),
                opt_view(password),
                opt_view(from),
                opt_view(to),
            ) {
                Some(e) => r matches Err(m) && m@ == e,
                None => r matches Ok(Some(c)) && c.host@ == host.unwrap()@ && c.username@
                    == username.unwrap()@ && c.password@ == password.unwrap()@ && c.from@
                    == from.unwrap()@ && c.to@ == to.unwrap()@,
            },
    {
        let host = match host {
            Some(h) => h,
            None => return Ok(None),
        };
        let username = match username {
            Some(u) => u,
            None => return Err(String::from_str("SMTP_HOST is set but SMTP_USERNAME is missing")),
        };
        let password = match password {
            Some(p) => p,
            None => return Err(String::from_str("SMTP_HOST is set but SMTP_PASSWORD is missing")),
        };
        let from_text = match from {
            Some(f) => f,
            None => return Err(String::from_str("SMTP_HOST is set but ALERT_FROM is missing")),
        };
        match parse_address(from_text.as_str()) {
            Ok(_) => {},
            Err(reason) => {
                let mut m = String::from_str("invalid ALERT_FROM address: ");
                m.append(reason.as_str());
                return Err(m);
            },
        }
        let to_text = match to {
            Some(t) => t,
            None => return Err(String::from_str("SMTP_HOST is set but ALERT_TO is missing")),
        };
        match parse_address(to_text.as_str()) {
            Ok(_) => {},
            Err(reason) => {
                let mut m = String::from_str("invalid ALERT_TO address: ");
                m.append(reason.as_str());
                return Err(m);
            },
        }
        Ok(Some(SmtpConfig { host, username, password, from: from_text, to: to_text }))
    }
}

} // verus!
