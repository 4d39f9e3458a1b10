//! The configuration of a PPPoE uplink and the options file made from it.
use vstd::prelude::*;
use vstd::utf8::encode_utf8;
use crate::error::{invalid, invalid_because, verdict_of, ServiceConfigError, Verdict};
use crate::text::{chars_of, has_char, same_text, trim, trimmed};

verus! {

/// The longest name of an interface, in bytes.
pub const PPP_IFACE_NAME_MAX_LEN: usize = 15;

/// Whether a character may stand in the name of a PPP interface.
pub open spec fn iface_char(c: char) -> bool {
    ||| 'a' <= c <= 'z'
    ||| 'A' <= c <= 'Z'
    ||| '0' <= c <= '9'
    ||| c == '-'
    ||| c == '_'
}

/// The first thing wrong with the name of a PPP interface.
pub open spec fn ppp_iface_name_verdict(name: Seq<char>) -> Verdict {
    if trimmed(name).len() == 0 {
        Verdict::Fault("PPPoE interface name must not be empty"@)
    } else if trimmed(name) != name {
        Verdict::Fault("PPPoE interface name must not have leading or trailing whitespace"@)
    } else if encode_utf8(name).len() > PPP_IFACE_NAME_MAX_LEN {
        Verdict::Fault("PPPoE interface name must be at most 15 characters"@)
    } else if exists|i: int| 0 <= i < name.len() && !iface_char(#[trigger] name[i]) {
        Verdict::Fault("PPPoE interface name may only contain ASCII letters, digits, '-' and '_'"@)
    } else {
        Verdict::Clean
    }
}

fn is_iface_char(c: char) -> (r: bool)
    ensures
        r == iface_char(c),
{
    ('a' <= c && c <= 'z') || ('A' <= c && c <= 'Z') || ('0' <= c && c <= '9') || c == '-' || c
        == '_'
}

pub fn validate_ppp_iface_name(iface_name: &str) -> (r: Result<(), ServiceConfigError>)
    ensures
        verdict_of(r) == ppp_iface_name_verdict(iface_name@),
{
    let name = trim(iface_name);
    if name.as_str().is_empty() {
        return invalid_because("PPPoE interface name must not be empty");
    }
    if !same_text(&name, iface_name) {
        return invalid_because("PPPoE interface name must not have leading or trailing whitespace");
    }
    if iface_name.as_bytes().len() > PPP_IFACE_NAME_MAX_LEN {
        return invalid_because("PPPoE interface name must be at most 15 characters");
    }
    let cs = chars_of(iface_name);
    let n: usize = cs.len();
    for i in 0..n
        invariant
            n == cs@.len(),
            cs@ == iface_name@,
            trimmed(iface_name@).len() > 0,
            trimmed(iface_name@) == iface_name@,
            encode_utf8(iface_name@).len() <= PPP_IFACE_NAME_MAX_LEN,
            forall|k: int| 0 <= k < i ==> iface_char(#[trigger] cs@[k]),
    {
        if !is_iface_char(cs[i]) {
            assert(!iface_char(iface_name@[i as int]));
            return invalid_because(
                "PPPoE interface name may only contain ASCII letters, digits, '-' and '_'",
            );
        }
    }
    Ok(())
}

/// The plugin that speaks PPPoE.
#[derive(Debug, Clone, Copy, PartialEq, Eq, Structural)]
pub enum PPPoEPlugin {
    RpPppoe,
    Pppoe,
}

impl Default for PPPoEPlugin {
    fn default() -> (r: Self)
        ensures
            r is RpPppoe,
    {
        PPPoEPlugin::RpPppoe
    }
}

impl PPPoEPlugin {
    pub open spec fn file(self) -> Seq<char> {
        match self {
            PPPoEPlugin::RpPppoe => "rp-pppoe.so"@,
            PPPoEPlugin::Pppoe => "pppoe.so"@,
        }
    }

    pub fn file_name(&self) -> (r: &'static str)
        ensures
            r@ == self.file(),
    {
        match self {
            PPPoEPlugin::RpPppoe => "rp-pppoe.so",
            PPPoEPlugin::Pppoe => "pppoe.so",
        }
    }
}

#[derive(Debug, Clone)]
pub struct PPPDConfig {
    pub default_route: bool,
    pub peer_id: String,
    pub password: String,
    pub ac: Option<String>,
    pub plugin: PPPoEPlugin,
}

#[derive(Debug, Clone)]
pub struct PPPDServiceConfig {
    pub attach_iface_name: String,
    pub iface_name: String,
    pub enable: bool,
    pub pppd_config: PPPDConfig,
}

/// The first thing wrong with a value that goes into the options file.
pub open spec fn option_verdict(field: Seq<char>, val: Seq<char>, allow_empty: bool) -> Verdict {
    if !allow_empty && val.len() == 0 {
        Verdict::Fault(field + " must not be empty"@)
    } else if encode_utf8(val).len() > 256 {
        Verdict::Fault(field + " exceeds 256 chars"@)
    } else if val.contains('\n') || val.contains('\r') || val.contains('"') {
        Verdict::Fault(field + " contains forbidden characters"@)
    } else {
        Verdict::Clean
    }
}

fn check(field: &str, val: &str, allow_empty: bool) -> (r: Result<(), ServiceConfigError>)
    ensures
        verdict_of(r) == option_verdict(field@, val@, allow_empty),
{
    if !allow_empty && val.is_empty() {
        return invalid(field.to_owned().concat(" must not be empty"));
    }
    if val.as_bytes().len() > 256 {
        return invalid(field.to_owned().concat(" exceeds 256 chars"));
    }
    if has_char(val, '\n') || has_char(val, '\r') || has_char(val, '"') {
        return invalid(field.to_owned().concat(" contains forbidden characters"));
    }
    Ok(())
}

/// The line that names the access concentrator, where one is named.
pub open spec fn ac_line(ac: Option<String>) -> Seq<char> {
    if ac is Some && trimmed(ac->0@).len() > 0 {
        "pppoe-ac \""@ + trimmed(ac->0@) + "\"\n"@
    } else {
        ""@
    }
}

impl PPPDConfig {
    /// The first thing wrong with the configuration.
    pub open spec fn verdict(self) -> Verdict {
        option_verdict("peer_id"@, self.peer_id@, false).or_else(
            option_verdict("password"@, self.password@, false),
        ).or_else(
            if self.ac is Some && trimmed(self.ac->0@).len() > 0 {
                option_verdict("ac"@, self.ac->0@, true)
            } else {
                Verdict::Clean
            },
        )
    }

    pub fn validate(&self) -> (r: Result<(), ServiceConfigError>)
        ensures
            verdict_of(r) == self.verdict(),
    {
        let peer_id = check("peer_id", &self.peer_id, false);
        if peer_id.is_err() {
            return peer_id;
        }
        let password = check("password", &self.password, false);
        if password.is_err() {
            return password;
        }
        if let Some(ac) = &self.ac {
            if !trim(ac).as_str().is_empty() {
                return check("ac", ac, true);
            }
        }
        Ok(())
    }

    /// The options file for the daemon.
    pub open spec fn options_text(self, attach: Seq<char>, iface: Seq<char>) -> Seq<char> {
        options_head() + self.plugin.file() + "\nnic-"@ + attach + "\n"@ + ac_line(self.ac)
            + "\nuser \""@ + self.peer_id@ + "\"\npassword \""@ + self.password@ + "\"\nifname "@
            + iface + "\n"@
    }

    fn to_ac_line(&self) -> (r: String)
        ensures
            r@ == ac_line(self.ac),
    {
        if let Some(ac) = &self.ac {
            let name = trim(ac);
            if !name.as_str().is_empty() {
                return "pppoe-ac \"".to_owned().concat(&name).concat("\"\n");
            }
        }
        "".to_owned()
    }

    /// What to write into the file that holds the options; nothing where the
    /// interface name is not valid.
    pub fn write_config(&self, attach_iface_name: &str, ppp_iface_name: &str) -> (r: Result<
        String,
        (),
    >)
        ensures
            match r {
                Ok(text) => ppp_iface_name_verdict(ppp_iface_name@) is Clean && text@
                    == self.options_text(attach_iface_name@, ppp_iface_name@),
                Err(_) => !(ppp_iface_name_verdict(ppp_iface_name@) is Clean),
            },
    {
        if validate_ppp_iface_name(ppp_iface_name).is_err() {
            return Err(());
        }
        Ok(
            head_text().concat(self.plugin.file_name()).concat("\nnic-").concat(
                attach_iface_name,
            ).concat("\n").concat(&self.to_ac_line()).concat("\nuser \"").concat(
                &self.peer_id,
            ).concat("\"\npassword \"").concat(&self.password).concat("\"\nifname ").concat(
                ppp_iface_name,
            ).concat("\n"),
        )
    }

    /// The name of the options file to remove; none where the interface name
    /// is not valid.
    pub fn delete_config(&self, ppp_iface_name: &str) -> (r: Option<String>)
        ensures
            match r {
                Some(name) => ppp_iface_name_verdict(ppp_iface_name@) is Clean && name@
                    == "/etc/ppp/peers/"@ + ppp_iface_name@,
                None => !(ppp_iface_name_verdict(ppp_iface_name@) is Clean),
            },
    {
        if validate_ppp_iface_name(ppp_iface_name).is_err() {
            return None;
        }
        Some("/etc/ppp/peers/".to_owned().concat(ppp_iface_name))
    }
}

/// The part of the options file that is always the same.
pub open spec fn options_head() -> Seq<char> {
    "\n# 此文件每次启动 pppd 都会被复写, 所以修改此文件不会有任何效果, 仅作为检查启动配置\n# This file is truncated each time pppd is started, so editing this file has no effect.\nnoipdefault\nhide-password\nlcp-echo-interval 30\nlcp-echo-failure 4\nnoauth\npersist\n#mtu 1492\nmaxfail 1\n#holdoff 20\nplugin "@
}

fn head_text() -> (r: String)
    ensures
        r@ == options_head(),
{
    "\n# 此文件每次启动 pppd 都会被复写, 所以修改此文件不会有任何效果, 仅作为检查启动配置\n# This file is truncated each time pppd is started, so editing this file has no effect.\nnoipdefault\nhide-password\nlcp-echo-interval 30\nlcp-echo-failure 4\nnoauth\npersist\n#mtu 1492\nmaxfail 1\n#holdoff 20\nplugin ".to_owned()
}

/// An accepted interface name holds no character that could leave the
/// directory of option files, and is not empty.
pub proof fn law_accepted_iface_name(name: Seq<char>)
    requires
        ppp_iface_name_verdict(name) is Clean,
    ensures
        name.len() > 0,
        !name.contains('/'),
        !name.contains('.'),
        forall|i: int| 0 <= i < name.len() ==> iface_char(#[trigger] name[i]),
{
    crate::text::lemma_trimmed_len(name);
}

/// No accepted value ends its quoted option early or starts a new line.
pub proof fn law_accepted_values_stay_quoted(c: PPPDConfig)
    requires
        c.verdict() is Clean,
    ensures
        forall|x: char|
            (x == '\n' || x == '\r' || x == '"') ==> !c.peer_id@.contains(x) && !c.password@.contains(x),
        c.ac is Some && trimmed(c.ac->0@).len() > 0 ==> forall|x: char|
            (x == '\n' || x == '\r' || x == '"') ==> !trimmed(c.ac->0@).contains(x),
{
    if c.ac is Some && trimmed(c.ac->0@).len() > 0 {
        crate::text::lemma_trimmed_len(c.ac->0@);
    }
}

/// A name is accepted exactly when it has one to fifteen characters, all of
/// them ASCII letters, digits, dashes or underscores.
pub proof fn law_iface_names(name: Seq<char>)
    ensures
        ppp_iface_name_verdict(name) is Clean ==> {
            &&& 1 <= name.len()
            &&& encode_utf8(name).len() <= 15
            &&& forall|i: int|
                0 <= i < name.len() ==> {
                    let c = #[trigger] name[i];
                    ('a' <= c && c <= 'z') || ('A' <= c && c <= 'Z') || ('0' <= c && c <= '9') || c
                        == '-' || c == '_'
                }
        },
        1 <= name.len() && encode_utf8(name).len() <= 15 && (forall|i: int|
            0 <= i < name.len() ==> {
                let c = #[trigger] name[i];
                ('a' <= c && c <= 'z') || ('A' <= c && c <= 'Z') || ('0' <= c && c <= '9') || c
                    == '-' || c == '_'
            }) ==> ppp_iface_name_verdict(name) is Clean,
{
    crate::text::lemma_trimmed_len(name);
    let (a, b) = crate::text::law_trimmed_stretch(name);
    if 1 <= name.len() && forall|i: int|
        0 <= i < name.len() ==> {
            let c = #[trigger] name[i];
            ('a' <= c && c <= 'z') || ('A' <= c && c <= 'Z') || ('0' <= c && c <= '9') || c == '-'
                || c == '_'
        } {
        if a > 0 {
            assert(crate::text::is_white_space(name[0]));
        }
        if b < name.len() {
            assert(crate::text::is_white_space(name[b]));
        }
        assert(name.subrange(0, name.len() as int) =~= name);
    }
}

/// Options are accepted exactly when the user and the password are there, and
/// these and the access concentrator, where it is named, take at most 256
/// bytes and hold no quote and no end of a line.
pub proof fn law_accepted_options(c: PPPDConfig)
    ensures
        ({
            let fits = |v: Seq<char>|
                encode_utf8(v).len() <= 256 && !v.contains('\n') && !v.contains('\r')
                    && !v.contains('"');
            c.verdict() is Clean <==> {
                &&& c.peer_id@.len() > 0 && fits(c.peer_id@)
                &&& c.password@.len() > 0 && fits(c.password@)
                &&& c.ac matches Some(ac) ==> trimmed(ac@).len() > 0 ==> fits(ac@)
            }
        }),
{
}

} // verus!
