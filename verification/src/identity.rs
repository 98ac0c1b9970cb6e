//! The headers by which the gateway names its client, and the description of
//! its surroundings.

use crate::text::{
    add_optional_pair, add_pair, as_text, chars_of, concat, concat3, is_blank, is_empty, joined, same,
    trimmed,
};
use vstd::prelude::*;

verus! {

/// Whether a text is not empty and made of printable ASCII characters.
pub open spec fn printable(s: Seq<char>) -> bool {
    s.len() > 0 && forall|i: int| 0 <= i < s.len() ==> ' ' <= #[trigger] s[i] <= '~'
}

/// A text without white space around it, where that is printable.
pub open spec fn printable_part(raw: Seq<char>) -> Option<Seq<char>> {
    if printable(crate::text::trim(raw)) {
        Some(crate::text::trim(raw))
    } else {
        None
    }
}

fn is_printable_ascii(v: &str) -> (r: bool)
    ensures
        r == printable(v@),
{
    let chars: Vec<char> = chars_of(v);
    if chars.len() == 0 {
        return false;
    }
    let mut i: usize = 0;
    while i < chars.len()
        invariant
            i <= chars@.len(),
            chars@ == v@,
            forall|k: int| 0 <= k < i ==> ' ' <= #[trigger] v@[k] <= '~',
        decreases chars@.len() - i,
    {
        if !(' ' <= chars[i] && chars[i] <= '~') {
            assert(!(' ' <= v@[i as int] <= '~'));
            return false;
        }
        i += 1;
    }
    true
}

/// A text without white space around it, where that is printable.
fn normalize_printable(raw: &str) -> (r: Option<String>)
    ensures
        crate::text::seen_string(r) == printable_part(raw@),
{
    let t = trimmed(raw);
    if is_printable_ascii(t.as_str()) {
        Some(t)
    } else {
        None
    }
}

/// The name of a processor architecture in the client's vocabulary.
pub open spec fn arch_name(arch: Seq<char>) -> Seq<char> {
    if arch == "x86_64"@ {
        "x64"@
    } else if arch == "aarch64"@ {
        "arm64"@
    } else {
        arch
    }
}

/// The name of a processor architecture in the client's vocabulary.
pub fn node_arch(arch: &str) -> (r: String)
    ensures
        r@ == arch_name(arch@),
{
    if same(arch, "x86_64") {
        "x64".to_owned()
    } else if same(arch, "aarch64") {
        "arm64".to_owned()
    } else {
        arch.to_owned()
    }
}

/// The family of an operating system.
pub open spec fn os_family(os: Seq<char>) -> Seq<char> {
    if os == "macos"@ {
        "macos"@
    } else if os == "windows"@ {
        "windows"@
    } else {
        "linux"@
    }
}

/// The family of an operating system.
pub fn os_category(os: &str) -> (r: String)
    ensures
        r@ == os_family(os@),
{
    if same(os, "macos") {
        "macos".to_owned()
    } else if same(os, "windows") {
        "windows".to_owned()
    } else {
        "linux".to_owned()
    }
}

/// `sys_locale::get_locale` gives the preferred locale of the system, where it
/// can be found. Nothing is claimed of it.
#[verifier::external_body]
fn system_locale() -> (r: Option<String>) {
    sys_locale::get_locale()
}

/// The language that a locale stands for, with a default for none.
pub open spec fn language_for(locale: Option<Seq<char>>) -> Seq<char> {
    match locale {
        Some(l) => if crate::text::trim(l).len() > 0 {
            l
        } else {
            "zh-CN"@
        },
        None => "zh-CN"@,
    }
}

/// The language that a locale stands for, with a default for none.
pub fn language_of(locale: Option<String>) -> (r: String)
    ensures
        r@ == language_for(crate::text::seen_string(locale)),
{
    match locale {
        Some(l) => if is_blank(l.as_str()) {
            "zh-CN".to_owned()
        } else {
            l
        },
        None => "zh-CN".to_owned(),
    }
}

/// The language of the system.
pub fn client_language() -> (r: String)
    ensures
        exists|locale: Option<Seq<char>>| r@ == #[trigger] language_for(locale),
{
    let locale: Option<String> = system_locale();
    let ghost seen = crate::text::seen_string(locale);
    let r = language_of(locale);
    assert(r@ == language_for(seen));
    r
}

/// What both sets of headers are made of.
pub struct IdentityValues {
    pub version: Option<String>,
    pub platform: Option<String>,
    pub arch: Option<String>,
    pub release: Option<String>,
    pub release_channel: String,
    pub language: String,
    pub timezone: String,
    pub os_category: String,
}

/// What both sets of headers are made of, as characters.
pub ghost struct IdentityRow {
    pub version: Option<Seq<char>>,
    pub platform: Option<Seq<char>>,
    pub arch: Option<Seq<char>>,
    pub release: Option<Seq<char>>,
    pub release_channel: Seq<char>,
    pub language: Seq<char>,
    pub timezone: Seq<char>,
    pub os_category: Seq<char>,
}

impl View for IdentityValues {
    type V = IdentityRow;

    open spec fn view(&self) -> IdentityRow {
        IdentityRow {
            version: crate::text::seen_string(self.version),
            platform: crate::text::seen_string(self.platform),
            arch: crate::text::seen_string(self.arch),
            release: crate::text::seen_string(self.release),
            release_channel: self.release_channel@,
            language: self.language@,
            timezone: self.timezone@,
            os_category: self.os_category@,
        }
    }
}

/// Collects the values from what the machine and the client say. A version that
/// is not printable counts as none.
pub fn resolve_values(
    app_version: &str,
    platform: &str,
    os: &str,
    arch: &str,
    release: Option<String>,
    language: String,
    timezone: String,
) -> (r: IdentityValues)
    ensures
        r@ == (IdentityRow {
            version: printable_part(app_version@),
            platform: Some(platform@),
            arch: Some(arch_name(arch@)),
            release: crate::text::seen_string(release),
            release_channel: "production"@,
            language: language@,
            timezone: timezone@,
            os_category: os_family(os@),
        }),
{
    IdentityValues {
        version: normalize_printable(app_version),
        platform: Some(platform.to_owned()),
        arch: Some(node_arch(arch)),
        release,
        release_channel: "production".to_owned(),
        language,
        timezone,
        os_category: os_category(os),
    }
}

/// The name of the client with its version.
pub open spec fn user_agent(v: IdentityRow) -> Seq<char> {
    "ZCode/"@ + match v.version {
        Some(version) => version,
        None => "unknown"@,
    }
}

/// Platform and architecture, where both are known.
pub open spec fn platform_pair(v: IdentityRow) -> Option<Seq<char>> {
    match (v.platform, v.arch) {
        (Some(p), Some(a)) => Some(p + "-"@ + a),
        _ => None,
    }
}

/// The headers of a completion request: they name the agent and never the
/// device.
pub open spec fn llm_headers(
    source_title: Seq<char>,
    referer_origin: Seq<char>,
    v: IdentityRow,
) -> Seq<(Seq<char>, Seq<char>)> {
    seq![("HTTP-Referer"@, referer_origin), ("User-Agent"@, user_agent(v))]
        + crate::text::optional_pair("X-ZCode-App-Version"@, v.version) + seq![
        ("X-Title"@, "Z Code@"@ + source_title),
    ] + seq![("X-Release-Channel"@, v.release_channel)] + seq![
        ("X-Client-Language"@, v.language),
    ] + seq![("X-Client-Timezone"@, v.timezone)] + seq![("X-ZCode-Agent"@, "glm"@)]
        + crate::text::optional_pair("X-Platform"@, platform_pair(v)) + seq![
        ("X-Os-Category"@, v.os_category),
    ] + crate::text::optional_pair("X-Os-Version"@, v.release)
}

/// The headers of a control request: they name the device, where one is given,
/// and never the agent.
pub open spec fn control_headers(
    source_title: Seq<char>,
    referer_origin: Seq<char>,
    device_mid: Option<Seq<char>>,
    v: IdentityRow,
) -> Seq<(Seq<char>, Seq<char>)> {
    seq![
        ("User-Agent"@, user_agent(v)),
        ("HTTP-Referer"@, referer_origin),
        ("X-Title"@, "Z Code@"@ + source_title),
    ] + crate::text::optional_pair("X-ZCode-App-Version"@, v.version)
        + crate::text::optional_pair("X-Platform"@, platform_pair(v)) + seq![
        ("X-Release-Channel"@, v.release_channel),
    ] + seq![("X-Client-Language"@, v.language)] + seq![("X-Client-Timezone"@, v.timezone)] + seq![
        ("X-Os-Category"@, v.os_category),
    ] + crate::text::optional_pair("X-Os-Version"@, v.release) + crate::text::optional_pair(
        "X-Device-Mid"@,
        match device_mid {
            Some(mid) => if crate::text::trim(mid).len() > 0 {
                Some(crate::text::trim(mid))
            } else {
                None
            },
            None => None,
        },
    )
}

fn make_user_agent(v: &IdentityValues) -> (r: String)
    ensures
        r@ == user_agent(v@),
{
    match &v.version {
        Some(version) => concat("ZCode/", version.as_str()),
        None => concat("ZCode/", "unknown"),
    }
}

fn make_platform_pair(v: &IdentityValues) -> (r: Option<String>)
    ensures
        crate::text::seen_string(r) == platform_pair(v@),
{
    match (&v.platform, &v.arch) {
        (Some(p), Some(a)) => Some(concat3(p.as_str(), "-", a.as_str())),
        _ => None,
    }
}

/// The headers of a completion request.
pub fn build_llm_identity_headers(
    source_title: &str,
    referer_origin: &str,
    v: &IdentityValues,
) -> (r: Vec<(String, String)>)
    ensures
        crate::text::pair_views(r@) == llm_headers(source_title@, referer_origin@, v@),
{
    let mut h: Vec<(String, String)> = Vec::new();
    let agent = make_user_agent(v);
    let platform = make_platform_pair(v);
    let title = concat("Z Code@", source_title);
    add_pair(&mut h, "HTTP-Referer", referer_origin);
    add_pair(&mut h, "User-Agent", agent.as_str());
    add_optional_pair(&mut h, "X-ZCode-App-Version", as_text(&v.version));
    add_pair(&mut h, "X-Title", title.as_str());
    add_pair(&mut h, "X-Release-Channel", v.release_channel.as_str());
    add_pair(&mut h, "X-Client-Language", v.language.as_str());
    add_pair(&mut h, "X-Client-Timezone", v.timezone.as_str());
    add_pair(&mut h, "X-ZCode-Agent", "glm");
    add_optional_pair(&mut h, "X-Platform", as_text(&platform));
    add_pair(&mut h, "X-Os-Category", v.os_category.as_str());
    add_optional_pair(&mut h, "X-Os-Version", as_text(&v.release));
    assert(crate::text::pair_views(h@) =~= llm_headers(source_title@, referer_origin@, v@));
    h
}

/// The headers of a control request.
pub fn build_control_identity_headers(
    source_title: &str,
    referer_origin: &str,
    device_mid: Option<&str>,
    v: &IdentityValues,
) -> (r: Vec<(String, String)>)
    ensures
        crate::text::pair_views(r@) == control_headers(
            source_title@,
            referer_origin@,
            crate::text::seen_str(device_mid),
            v@,
        ),
{
    let mut h: Vec<(String, String)> = Vec::new();
    let agent = make_user_agent(v);
    let platform = make_platform_pair(v);
    let title = concat("Z Code@", source_title);
    let mid: Option<String> = match device_mid {
        Some(mid) => {
            let t = trimmed(mid);
            if is_empty(t.as_str()) {
                None
            } else {
                Some(t)
            }
        },
        None => None,
    };
    add_pair(&mut h, "User-Agent", agent.as_str());
    add_pair(&mut h, "HTTP-Referer", referer_origin);
    add_pair(&mut h, "X-Title", title.as_str());
    add_optional_pair(&mut h, "X-ZCode-App-Version", as_text(&v.version));
    add_optional_pair(&mut h, "X-Platform", as_text(&platform));
    add_pair(&mut h, "X-Release-Channel", v.release_channel.as_str());
    add_pair(&mut h, "X-Client-Language", v.language.as_str());
    add_pair(&mut h, "X-Client-Timezone", v.timezone.as_str());
    add_pair(&mut h, "X-Os-Category", v.os_category.as_str());
    add_optional_pair(&mut h, "X-Os-Version", as_text(&v.release));
    add_optional_pair(&mut h, "X-Device-Mid", as_text(&mid));
    assert(crate::text::pair_views(h@) =~= control_headers(
        source_title@,
        referer_origin@,
        crate::text::seen_str(device_mid),
        v@,
    ));
    h
}

/// The surroundings that the system prompt of a start plan describes.
pub struct EnvPromptInfo {
    pub cwd: String,
    pub platform: String,
    pub shell: String,
    pub os_version: String,
}

/// The texts that are not empty.
pub open spec fn filled(parts: Seq<Seq<char>>) -> Seq<Seq<char>>
    decreases parts.len(),
{
    if parts.len() == 0 {
        Seq::empty()
    } else if parts.last().len() > 0 {
        filled(parts.drop_last()).push(parts.last())
    } else {
        filled(parts.drop_last())
    }
}

/// Describes the surroundings from what the machine says: the working directory
/// with a default, the file name of the shell with its whole path where it has
/// none, and the parts of the system's version that are there.
pub fn env_prompt_info(
    cwd: Option<String>,
    shell_path: String,
    shell_name: Option<String>,
    platform: &str,
    release: Option<String>,
    arch: &str,
) -> (r: EnvPromptInfo)
    ensures
        r.cwd@ == match crate::text::seen_string(cwd) {
            Some(cwd) => cwd,
            None => "."@,
        },
        r.platform@ == platform@,
        r.shell@ == if shell_path@.len() == 0 {
            "unknown"@
        } else {
            match crate::text::seen_string(shell_name) {
                Some(name) => name,
                None => shell_path@,
            }
        },
        r.os_version@ == crate::text::join(
            filled(
                seq![
                    platform@,
                    crate::json::or_blank(crate::text::seen_string(release)),
                    arch_name(arch@),
                ],
            ),
            " "@,
        ),
{
    let arch = node_arch(arch);
    let release = crate::json::text_or_blank(as_text(&release));
    let ghost all = seq![platform@, release@, arch@];
    let mut parts: Vec<String> = Vec::new();
    proof {
        reveal_with_fuel(filled, 4);
        assert(all.drop_last() =~= seq![platform@, release@]);
        assert(all.drop_last().drop_last() =~= seq![platform@]);
        assert(all.drop_last().drop_last().drop_last() =~= Seq::<Seq<char>>::empty());
    }
    if !is_empty(platform) {
        parts.push(platform.to_owned());
    }
    if !is_empty(release.as_str()) {
        parts.push(release);
    }
    if !is_empty(arch.as_str()) {
        parts.push(arch);
    }
    assert(crate::text::views(parts@) =~= filled(all));
    let shell = if is_empty(shell_path.as_str()) {
        "unknown".to_owned()
    } else {
        match shell_name {
            Some(name) => name,
            None => shell_path,
        }
    };
    let cwd = match cwd {
        Some(cwd) => cwd,
        None => ".".to_owned(),
    };
    EnvPromptInfo { cwd, platform: platform.to_owned(), shell, os_version: joined(&parts, " ") }
}

/// Whether a list of pairs holds one with the given name.
pub open spec fn names(pairs: Seq<(Seq<char>, Seq<char>)>, name: Seq<char>) -> bool {
    exists|i: int| 0 <= i < pairs.len() && (#[trigger] pairs[i]).0 == name
}

proof fn lemma_header_names()
    ensures
        "X-Device-Mid"@ != "HTTP-Referer"@,
        "X-Device-Mid"@ != "User-Agent"@,
        "X-Device-Mid"@ != "X-ZCode-App-Version"@,
        "X-Device-Mid"@ != "X-Title"@,
        "X-Device-Mid"@ != "X-Release-Channel"@,
        "X-Device-Mid"@ != "X-Client-Language"@,
        "X-Device-Mid"@ != "X-Client-Timezone"@,
        "X-Device-Mid"@ != "X-ZCode-Agent"@,
        "X-Device-Mid"@ != "X-Platform"@,
        "X-Device-Mid"@ != "X-Os-Category"@,
        "X-Device-Mid"@ != "X-Os-Version"@,
        "X-ZCode-Agent"@ != "HTTP-Referer"@,
        "X-ZCode-Agent"@ != "User-Agent"@,
        "X-ZCode-Agent"@ != "X-ZCode-App-Version"@,
        "X-ZCode-Agent"@ != "X-Title"@,
        "X-ZCode-Agent"@ != "X-Release-Channel"@,
        "X-ZCode-Agent"@ != "X-Client-Language"@,
        "X-ZCode-Agent"@ != "X-Client-Timezone"@,
        "X-ZCode-Agent"@ != "X-Platform"@,
        "X-ZCode-Agent"@ != "X-Os-Category"@,
        "X-ZCode-Agent"@ != "X-Os-Version"@,
{
    reveal_strlit("X-Device-Mid");
    reveal_strlit("HTTP-Referer");
    reveal_strlit("User-Agent");
    reveal_strlit("X-ZCode-App-Version");
    reveal_strlit("X-Title");
    reveal_strlit("X-Release-Channel");
    reveal_strlit("X-Client-Language");
    reveal_strlit("X-Client-Timezone");
    reveal_strlit("X-ZCode-Agent");
    reveal_strlit("X-Platform");
    reveal_strlit("X-Os-Category");
    reveal_strlit("X-Os-Version");
    assert("X-Device-Mid"@.len() == 12 && "X-Device-Mid"@[2] == 'D');
    assert("HTTP-Referer"@.len() == 12 && "HTTP-Referer"@[2] == 'T');
    assert("X-Os-Version"@.len() == 12 && "X-Os-Version"@[2] == 'O');
    assert("X-ZCode-Agent"@.len() == 13 && "X-ZCode-Agent"@[2] == 'Z');
    assert("X-Os-Category"@.len() == 13 && "X-Os-Category"@[2] == 'O');
    assert("User-Agent"@.len() == 10);
    assert("X-ZCode-App-Version"@.len() == 19);
    assert("X-Title"@.len() == 7);
    assert("X-Release-Channel"@.len() == 17);
    assert("X-Client-Language"@.len() == 17);
    assert("X-Client-Timezone"@.len() == 17);
    assert("X-Platform"@.len() == 10);
}

/// The headers of a completion request never name the device, and always name
/// the agent.
pub proof fn law_completions_hide_the_device(
    source_title: Seq<char>,
    referer_origin: Seq<char>,
    v: IdentityRow,
)
    ensures
        !names(llm_headers(source_title, referer_origin, v), "X-Device-Mid"@),
        names(llm_headers(source_title, referer_origin, v), "X-ZCode-Agent"@),
{
    lemma_header_names();
    let h = llm_headers(source_title, referer_origin, v);
    let k: int = if v.version is Some {
        7
    } else {
        6
    };
    assert(h[k].0 == "X-ZCode-Agent"@);
}

/// The headers of a control request never name the agent, and name the device
/// exactly where one is given that is not blank.
pub proof fn law_controls_hide_the_agent(
    source_title: Seq<char>,
    referer_origin: Seq<char>,
    device_mid: Option<Seq<char>>,
    v: IdentityRow,
)
    ensures
        !names(control_headers(source_title, referer_origin, device_mid, v), "X-ZCode-Agent"@),
        names(control_headers(source_title, referer_origin, device_mid, v), "X-Device-Mid"@) <==> (
        device_mid matches Some(mid) && crate::text::trim(mid).len() > 0),
{
    lemma_header_names();
    let h = control_headers(source_title, referer_origin, device_mid, v);
    if device_mid matches Some(mid) && crate::text::trim(mid).len() > 0 {
        assert(h[h.len() - 1].0 == "X-Device-Mid"@);
    }
}

/// The texts of collected values are those that the fields hold.
pub proof fn law_values_tell_their_fields(v: IdentityValues)
    ensures
        v@.version is Some <==> v.version is Some,
        v.version is Some ==> v@.version->0 == v.version->0@,
        v@.platform is Some <==> v.platform is Some,
        v.platform is Some ==> v@.platform->0 == v.platform->0@,
        v@.arch is Some <==> v.arch is Some,
        v.arch is Some ==> v@.arch->0 == v.arch->0@,
        v@.release is Some <==> v.release is Some,
        v.release is Some ==> v@.release->0 == v.release->0@,
        v@.release_channel == v.release_channel@,
        v@.language == v.language@,
        v@.timezone == v.timezone@,
        v@.os_category == v.os_category@,
{
}

/// A version is told without the white space around it, and only where it is not
/// blank and all of it can be printed in ASCII.
pub proof fn law_versions_are_printable(raw: Seq<char>)
    ensures
        printable_part(raw) is Some ==> printable_part(raw)->0 == crate::text::trim(raw),
        printable_part(raw) is Some <==> crate::text::trim(raw).len() > 0 && forall|i: int|
            0 <= i < crate::text::trim(raw).len() ==> ' ' <= #[trigger] crate::text::trim(
                raw,
            )[i] <= '~',
{
}

/// A 64-bit machine goes by its short name, every other one by its own; a system
/// that is neither macOS nor Windows counts as Linux.
pub proof fn law_machines_have_short_names(arch: Seq<char>, os: Seq<char>)
    ensures
        arch_name("x86_64"@) == "x64"@,
        arch_name("aarch64"@) == "arm64"@,
        arch != "x86_64"@ && arch != "aarch64"@ ==> arch_name(arch) == arch,
        os_family("macos"@) == "macos"@,
        os_family("windows"@) == "windows"@,
        os != "macos"@ && os != "windows"@ ==> os_family(os) == "linux"@,
{
    reveal_strlit("x86_64");
    reveal_strlit("aarch64");
    reveal_strlit("macos");
    reveal_strlit("windows");
    assert("x86_64"@.len() == 6);
    assert("aarch64"@.len() == 7 && "aarch64"@[0] == 'a');
    assert("macos"@.len() == 5);
    assert("windows"@.len() == 7 && "windows"@[0] == 'w');
}

/// The language is the locale as it is given; where none is given, or only white
/// space, it is Chinese.
pub proof fn law_languages_follow_the_locale(locale: Seq<char>)
    ensures
        crate::text::trim(locale).len() > 0 ==> language_for(Some(locale)) == locale,
        crate::text::trim(locale).len() == 0 ==> language_for(Some(locale)) == "zh-CN"@,
        language_for(None) == "zh-CN"@,
{
}

/// The headers of a completion tell who asks: origin, client and version, title,
/// channel, language, time zone, agent, platform, system and its release. What is
/// not known is left out, and nothing else is told.
pub proof fn law_completions_tell_who_asks(
    source_title: Seq<char>,
    referer_origin: Seq<char>,
    v: IdentityRow,
)
    ensures
        ({
            let h = llm_headers(source_title, referer_origin, v);
            &&& h.contains(("HTTP-Referer"@, referer_origin))
            &&& v.version is Some ==> h.contains(("User-Agent"@, "ZCode/"@ + v.version->0))
            &&& v.version is None ==> h.contains(("User-Agent"@, "ZCode/"@ + "unknown"@))
            &&& v.version is Some ==> h.contains(("X-ZCode-App-Version"@, v.version->0))
            &&& h.contains(("X-Title"@, "Z Code@"@ + source_title))
            &&& h.contains(("X-Release-Channel"@, v.release_channel))
            &&& h.contains(("X-Client-Language"@, v.language))
            &&& h.contains(("X-Client-Timezone"@, v.timezone))
            &&& h.contains(("X-ZCode-Agent"@, "glm"@))
            &&& v.platform is Some && v.arch is Some ==> h.contains(
                ("X-Platform"@, v.platform->0 + "-"@ + v.arch->0),
            )
            &&& h.contains(("X-Os-Category"@, v.os_category))
            &&& v.release is Some ==> h.contains(("X-Os-Version"@, v.release->0))
            &&& h.len() == 8 + (if v.version is Some {
                1int
            } else {
                0
            }) + (if v.platform is Some && v.arch is Some {
                1int
            } else {
                0
            }) + (if v.release is Some {
                1int
            } else {
                0
            })
        }),
{
    let h = llm_headers(source_title, referer_origin, v);
    let a: int = if v.version is Some {
        1
    } else {
        0
    };
    let b: int = if v.platform is Some && v.arch is Some {
        1
    } else {
        0
    };
    assert(h[0] == ("HTTP-Referer"@, referer_origin));
    assert(h[1].0 == "User-Agent"@ && h[1].1 == user_agent(v));
    if v.version is Some {
        assert(h[2] == ("X-ZCode-App-Version"@, v.version->0));
    }
    assert(h[2 + a] == ("X-Title"@, "Z Code@"@ + source_title));
    assert(h[3 + a] == ("X-Release-Channel"@, v.release_channel));
    assert(h[4 + a] == ("X-Client-Language"@, v.language));
    assert(h[5 + a] == ("X-Client-Timezone"@, v.timezone));
    assert(h[6 + a] == ("X-ZCode-Agent"@, "glm"@));
    if v.platform is Some && v.arch is Some {
        assert(h[7 + a] == ("X-Platform"@, v.platform->0 + "-"@ + v.arch->0));
    }
    assert(h[7 + a + b] == ("X-Os-Category"@, v.os_category));
    if v.release is Some {
        assert(h[8 + a + b] == ("X-Os-Version"@, v.release->0));
    }
}

/// The headers of a control request tell the same, without the agent, and the
/// device, without the white space around it, where one is given that is not
/// blank.
pub proof fn law_controls_tell_who_asks(
    source_title: Seq<char>,
    referer_origin: Seq<char>,
    device_mid: Option<Seq<char>>,
    v: IdentityRow,
)
    ensures
        ({
            let h = control_headers(source_title, referer_origin, device_mid, v);
            &&& h.contains(("HTTP-Referer"@, referer_origin))
            &&& v.version is Some ==> h.contains(("User-Agent"@, "ZCode/"@ + v.version->0))
            &&& v.version is None ==> h.contains(("User-Agent"@, "ZCode/"@ + "unknown"@))
            &&& v.version is Some ==> h.contains(("X-ZCode-App-Version"@, v.version->0))
            &&& h.contains(("X-Title"@, "Z Code@"@ + source_title))
            &&& h.contains(("X-Release-Channel"@, v.release_channel))
            &&& h.contains(("X-Client-Language"@, v.language))
            &&& h.contains(("X-Client-Timezone"@, v.timezone))
            &&& v.platform is Some && v.arch is Some ==> h.contains(
                ("X-Platform"@, v.platform->0 + "-"@ + v.arch->0),
            )
            &&& h.contains(("X-Os-Category"@, v.os_category))
            &&& v.release is Some ==> h.contains(("X-Os-Version"@, v.release->0))
            &&& device_mid is Some && crate::text::trim(device_mid->0).len() > 0 ==> h.contains(
                ("X-Device-Mid"@, crate::text::trim(device_mid->0)),
            )
            &&& h.len() == 7 + (if v.version is Some {
                1int
            } else {
                0
            }) + (if v.platform is Some && v.arch is Some {
                1int
            } else {
                0
            }) + (if v.release is Some {
                1int
            } else {
                0
            }) + (if device_mid is Some && crate::text::trim(device_mid->0).len() > 0 {
                1int
            } else {
                0
            })
        }),
{
    let h = control_headers(source_title, referer_origin, device_mid, v);
    let a: int = if v.version is Some {
        1
    } else {
        0
    };
    let b: int = a + if v.platform is Some && v.arch is Some {
        1int
    } else {
        0
    };
    let c: int = b + if v.release is Some {
        1int
    } else {
        0
    };
    assert(h[0].0 == "User-Agent"@ && h[0].1 == user_agent(v));
    assert(h[1] == ("HTTP-Referer"@, referer_origin));
    assert(h[2] == ("X-Title"@, "Z Code@"@ + source_title));
    if v.version is Some {
        assert(h[3] == ("X-ZCode-App-Version"@, v.version->0));
    }
    if v.platform is Some && v.arch is Some {
        assert(h[3 + a] == ("X-Platform"@, v.platform->0 + "-"@ + v.arch->0));
    }
    assert(h[3 + b] == ("X-Release-Channel"@, v.release_channel));
    assert(h[4 + b] == ("X-Client-Language"@, v.language));
    assert(h[5 + b] == ("X-Client-Timezone"@, v.timezone));
    assert(h[6 + b] == ("X-Os-Category"@, v.os_category));
    if v.release is Some {
        assert(h[7 + b] == ("X-Os-Version"@, v.release->0));
    }
    if device_mid is Some && crate::text::trim(device_mid->0).len() > 0 {
        assert(h[7 + c] == ("X-Device-Mid"@, crate::text::trim(device_mid->0)));
    }
}

/// What is filled in of a list is the list without its empty texts, in order.
pub proof fn law_only_empty_texts_are_left_out(parts: Seq<Seq<char>>)
    ensures
        filled(parts) == parts.filter(|s: Seq<char>| s.len() > 0),
    decreases parts.len(),
{
    reveal(Seq::filter);
    if parts.len() > 0 {
        law_only_empty_texts_are_left_out(parts.drop_last());
    }
}

} // verus!
