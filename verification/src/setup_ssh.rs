//! SSH setup: the plan of changes and its validation, the interview that
//! fills it in, the managed `sshd` configuration it renders, and checking
//! what `sshd -T` reports against it.
use vstd::prelude::*;

use crate::num::{decimal, decimal_chars, lemma_decimal_digits, parse_u16, parse_u16_chars};
use crate::split::{
    contains, contains_str, join, join_chars, lemma_find_sub_reaches, lemma_split_on_append_plain,
    lemma_lines_of_joined, lemma_split_on_ends, lines, lines_of, split_on, strip_cr, words, words_of,
};
use crate::text::{
    append, append_str, chars_eq, chars_of, ends_with, ends_with_str, is_ascii_alnum, is_ws, opt_view,
    starts_with, starts_with_chars, starts_with_str, str_eq, string_of, to_lowercase, trim,
    trim_chars, trim_end, trim_start, trim_start_chars, unicode_lowercase, views, lemma_trim_end_last,
    is_digit,
};
use crate::utils::{texts, CliError, OperationReport};

verus! {

// ---------------------------------------------------------------------------
// The plan
// ---------------------------------------------------------------------------

/// The changes that `setup-ssh` makes.
#[derive(Debug)]
pub struct SetupPlan {
    pub port: Option<u16>,
    pub user: Option<String>,
    pub pubkey_file: Option<String>,
    pub rotate_authorized_key: bool,
    pub skip_pubkey: bool,
    pub allow_users: Option<String>,
    pub disable_root_login: bool,
    pub disable_password_auth: bool,
    pub write_hardening: bool,
}

/// The SSH port of a plan: a `u16` in decimal, at least 1024.
pub open spec fn ssh_port(value: Seq<char>) -> Result<u16, Seq<char>> {
    match parse_u16(value) {
        None => Err("端口必须为数字"@),
        Some(p) => if p < 1024 {
            Err("端口必须在 1024-65535 之间"@)
        } else {
            Ok(p)
        },
    }
}

/// The SSH port of a plan (see [`ssh_port`]).
pub fn parse_port(value: &str) -> (r: Result<u16, CliError>)
    ensures
        match r {
            Ok(p) => ssh_port(value@) == Ok::<u16, Seq<char>>(p),
            Err(e) => ssh_port(value@) == Err::<u16, Seq<char>>(e.message@),
        },
{
    match parse_u16_chars(&chars_of(value)) {
        None => Err(CliError::new("端口必须为数字")),
        Some(p) => {
            if p < 1024 {
                Err(CliError::new("端口必须在 1024-65535 之间"))
            } else {
                Ok(p)
            }
        },
    }
}

/// A user name of ASCII letters, digits, `_` and `-`.
pub open spec fn valid_user_name(user: Seq<char>) -> bool {
    forall|i: int| 0 <= i < user.len() ==> is_ascii_alnum(#[trigger] user[i]) || user[i] == '_' || user[i] == '-'
}

fn user_name_ok(user: &str) -> (r: bool)
    ensures
        r == valid_user_name(user@),
{
    let u = chars_of(user);
    let n = u.len();
    for i in 0..n
        invariant
            n == u@.len(),
            u@ == user@,
            forall|k: int| 0 <= k < i ==> is_ascii_alnum(#[trigger] u@[k]) || u@[k] == '_' || u@[k] == '-',
    {
        let c = u[i];
        let ok = ('0' <= c && c <= '9') || ('A' <= c && c <= 'Z') || ('a' <= c && c <= 'z') || c
            == '_' || c == '-';
        if !ok {
            assert(!(is_ascii_alnum(u@[i as int]) || u@[i as int] == '_' || u@[i as int] == '-'));
            return false;
        }
    }
    true
}

/// What is wrong with a public key file's text, if anything: it must not be
/// blank, and it must be an Ed25519 or ECDSA key.
pub open spec fn public_key_problem(content: Seq<char>) -> Option<Seq<char>> {
    let t = trim(content);
    if t.len() == 0 {
        Some("公钥文件为空"@)
    } else if !starts_with(t, "ssh-ed25519"@) && !starts_with(t, "ecdsa-"@) {
        Some("仅允许 ssh-ed25519 或 ECDSA 公钥"@)
    } else {
        None
    }
}

/// Checks a public key file's text (see [`public_key_problem`]).
pub fn check_public_key_text(content: &str) -> (r: Result<(), CliError>)
    ensures
        match public_key_problem(content@) {
            None => r is Ok,
            Some(m) => r matches Err(e) && e.message@ == m,
        },
{
    let t = trim_chars(&chars_of(content));
    if t.len() == 0 {
        return Err(CliError::new("公钥文件为空"));
    }
    if !starts_with_str(&t, "ssh-ed25519") && !starts_with_str(&t, "ecdsa-") {
        return Err(CliError::new("仅允许 ssh-ed25519 或 ECDSA 公钥"));
    }
    Ok(())
}

/// The error when `ssh-keygen` rejected the public key.
pub fn keygen_rejection(stderr: &str) -> (r: CliError)
    ensures
        r.message@ == "ssh-keygen 校验公钥失败: "@ + trim(stderr@),
{
    let mut m = chars_of("ssh-keygen 校验公钥失败: ");
    append(&mut m, &trim_chars(&chars_of(stderr)));
    CliError::from_message(string_of(&m))
}

/// The first problem of a plan, given whether its port is taken, whether its
/// public key file exists, and what checking that key gave: a taken port, a
/// bad user name, a missing or bad key file, rotating without a key file, a
/// key file without a user, and an `AllowUsers` list without the user whose
/// key is rotated, in that order.
pub open spec fn plan_problem(
    plan: SetupPlan,
    port_in_use: bool,
    pubkey_exists: bool,
    pubkey_check: Option<Seq<char>>,
) -> Option<Seq<char>> {
    if plan.port is Some && port_in_use {
        Some("端口 "@ + decimal(plan.port->0 as nat) + " 已被其他服务占用"@)
    } else if plan.user is Some && !valid_user_name(plan.user->0@) {
        Some("用户名只能包含字母、数字、下划线或短横线"@)
    } else if plan.pubkey_file is Some && !pubkey_exists {
        Some("公钥文件不存在: "@ + plan.pubkey_file->0@)
    } else if plan.pubkey_file is Some && pubkey_check is Some {
        pubkey_check
    } else if plan.rotate_authorized_key && plan.pubkey_file is None {
        Some("启用 --rotate-authorized-key 时必须同时提供 --pubkey-file"@)
    } else if plan.pubkey_file is Some && plan.user is None {
        Some("指定 --pubkey-file 时必须同时提供 --user"@)
    } else if plan.allow_users is Some && plan.user is Some && plan.rotate_authorized_key
        && !words(plan.allow_users->0@).contains(plan.user->0@) {
        Some("AllowUsers 必须包含本次替换公钥的用户 "@ + plan.user->0@)
    } else {
        None
    }
}

/// Checks a plan (see [`plan_problem`]); `pubkey_check` is what checking the
/// public key file gave, and its error is the one returned when it failed.
pub fn validate_plan(
    plan: &SetupPlan,
    port_in_use: bool,
    pubkey_exists: bool,
    pubkey_check: Result<(), CliError>,
) -> (r: Result<(), CliError>)
    ensures
        match plan_problem(
            *plan,
            port_in_use,
            pubkey_exists,
            match pubkey_check {
                Ok(_) => None,
                Err(e) => Some(e.message@),
            },
        ) {
            None => r is Ok,
            Some(m) => r matches Err(e) && e.message@ == m,
        },
{
    if let Some(port) = plan.port {
        if port_in_use {
            let mut m = chars_of("端口 ");
            append(&mut m, &decimal_chars(port as u64));
            append_str(&mut m, " 已被其他服务占用");
            return Err(CliError::from_message(string_of(&m)));
        }
    }
    if let Some(user) = &plan.user {
        if !user_name_ok(user.as_str()) {
            return Err(CliError::new("用户名只能包含字母、数字、下划线或短横线"));
        }
    }
    if let Some(path) = &plan.pubkey_file {
        if !pubkey_exists {
            let mut m = chars_of("公钥文件不存在: ");
            append_str(&mut m, path.as_str());
            return Err(CliError::from_message(string_of(&m)));
        }
        if let Err(e) = pubkey_check {
            return Err(e);
        }
    }
    if plan.rotate_authorized_key && plan.pubkey_file.is_none() {
        return Err(CliError::new("启用 --rotate-authorized-key 时必须同时提供 --pubkey-file"));
    }
    if plan.pubkey_file.is_some() && plan.user.is_none() {
        return Err(CliError::new("指定 --pubkey-file 时必须同时提供 --user"));
    }
    if let (Some(allow), Some(user)) = (&plan.allow_users, &plan.user) {
        if plan.rotate_authorized_key {
            let ws = words_of(&chars_of(allow.as_str()));
            let uc = chars_of(user.as_str());
            let mut found = false;
            let n = ws.len();
            for i in 0..n
                invariant
                    n == ws@.len(),
                    uc@ == user@,
                    found <==> exists|k: int| 0 <= k < i && views(ws@)[k] == uc@,
            {
                if chars_eq(&ws[i], &uc) {
                    assert(views(ws@)[i as int] == uc@);
                    found = true;
                }
            }
            assert(found <==> views(ws@).contains(uc@));
            if !found {
                let mut m = chars_of("AllowUsers 必须包含本次替换公钥的用户 ");
                append_str(&mut m, user.as_str());
                return Err(CliError::from_message(string_of(&m)));
            }
        }
    }
    Ok(())
}

/// A plan that passes validation never rotates a key without a key file,
/// never installs a key without a user, uses a valid user name, and, when
/// it rotates that user's key under an `AllowUsers` list, keeps the user in
/// the list (so the new key can log in).
pub proof fn lemma_valid_plan_keeps_access(
    plan: SetupPlan,
    port_in_use: bool,
    pubkey_exists: bool,
    pubkey_check: Option<Seq<char>>,
)
    requires
        plan_problem(plan, port_in_use, pubkey_exists, pubkey_check) is None,
    ensures
        plan.rotate_authorized_key ==> plan.pubkey_file is Some,
        plan.pubkey_file is Some ==> plan.user is Some && pubkey_exists && pubkey_check is None,
        plan.user matches Some(u) ==> valid_user_name(u@),
        plan.port is Some ==> !port_in_use,
        (plan.rotate_authorized_key && plan.user is Some && plan.allow_users is Some) ==> words(
            plan.allow_users->0@,
        ).contains(plan.user->0@),
{
}

// ---------------------------------------------------------------------------
// The interview
// ---------------------------------------------------------------------------

/// A question of the interview that fills in a plan.
#[derive(Debug, Clone, Copy, PartialEq, Eq, Structural)]
pub enum PlanQuestion {
    /// The new SSH port (may be left empty).
    Port,
    /// The Linux user to manage (may be left empty).
    User,
    /// Whether to replace the user's `authorized_keys`.
    ReplaceKey,
    /// The path of the new public key.
    KeyPath,
    /// Whether to write an `AllowUsers` list.
    SetAllowUsers,
    /// The `AllowUsers` list (starting from the user's name).
    AllowUsers,
    /// Whether to forbid root logins.
    DisableRootLogin,
    /// Whether to turn off password logins.
    DisablePasswordAuth,
    /// Whether to write the basic hardening settings.
    WriteHardening,
}

/// An answer to a question: text for the open questions, yes or no for the
/// others.
#[derive(Debug)]
pub enum PlanAnswer {
    Text(String),
    YesNo(bool),
}

/// Where the interview stands: how many of its steps are behind it, and the
/// two yes answers that open a follow-up question.
#[derive(Debug)]
pub struct Interview {
    pub step: u8,
    pub want_key: bool,
    pub want_allow_users: bool,
}

/// The question of a step, in the order the steps come.
pub open spec fn step_question(step: int) -> PlanQuestion {
    if step == 0 {
        PlanQuestion::Port
    } else if step == 1 {
        PlanQuestion::User
    } else if step == 2 {
        PlanQuestion::ReplaceKey
    } else if step == 3 {
        PlanQuestion::KeyPath
    } else if step == 4 {
        PlanQuestion::SetAllowUsers
    } else if step == 5 {
        PlanQuestion::AllowUsers
    } else if step == 6 {
        PlanQuestion::DisableRootLogin
    } else if step == 7 {
        PlanQuestion::DisablePasswordAuth
    } else {
        PlanQuestion::WriteHardening
    }
}

/// Whether the step is asked at all: only for what the plan leaves open,
/// and the follow-ups only after a yes.
pub open spec fn step_applies(step: int, plan: SetupPlan, iv: Interview) -> bool {
    if step == 0 {
        plan.port is None
    } else if step == 1 {
        plan.user is None
    } else if step == 2 {
        plan.pubkey_file is None && !plan.skip_pubkey
    } else if step == 3 {
        iv.want_key
    } else if step == 4 {
        plan.allow_users is None
    } else if step == 5 {
        iv.want_allow_users
    } else if step == 6 {
        !plan.disable_root_login
    } else if step == 7 {
        !plan.disable_password_auth
    } else {
        step == 8 && !plan.write_hardening
    }
}

/// A fresh interview.
pub fn start_interview() -> (r: Interview)
    ensures
        r.step == 0,
        !r.want_key,
        !r.want_allow_users,
{
    Interview { step: 0, want_key: false, want_allow_users: false }
}

fn applies(step: u8, plan: &SetupPlan, iv: &Interview) -> (r: bool)
    ensures
        r == step_applies(step as int, *plan, *iv),
{
    if step == 0 {
        plan.port.is_none()
    } else if step == 1 {
        plan.user.is_none()
    } else if step == 2 {
        plan.pubkey_file.is_none() && !plan.skip_pubkey
    } else if step == 3 {
        iv.want_key
    } else if step == 4 {
        plan.allow_users.is_none()
    } else if step == 5 {
        iv.want_allow_users
    } else if step == 6 {
        !plan.disable_root_login
    } else if step == 7 {
        !plan.disable_password_auth
    } else {
        step == 8 && !plan.write_hardening
    }
}

fn question_of(step: u8) -> (r: PlanQuestion)
    ensures
        r == step_question(step as int),
{
    if step == 0 {
        PlanQuestion::Port
    } else if step == 1 {
        PlanQuestion::User
    } else if step == 2 {
        PlanQuestion::ReplaceKey
    } else if step == 3 {
        PlanQuestion::KeyPath
    } else if step == 4 {
        PlanQuestion::SetAllowUsers
    } else if step == 5 {
        PlanQuestion::AllowUsers
    } else if step == 6 {
        PlanQuestion::DisableRootLogin
    } else if step == 7 {
        PlanQuestion::DisablePasswordAuth
    } else {
        PlanQuestion::WriteHardening
    }
}

/// The next question of the interview: the first step from where it stands
/// that applies; the interview moves to that step. None when all steps are
/// behind it.
pub fn next_question(iv: &mut Interview, plan: &SetupPlan) -> (r: Option<PlanQuestion>)
    ensures
        final(iv).want_key == old(iv).want_key,
        final(iv).want_allow_users == old(iv).want_allow_users,
        old(iv).step <= final(iv).step,
        old(iv).step <= 9 ==> final(iv).step <= 9,
        forall|k: int|
            old(iv).step <= k < final(iv).step ==> !step_applies(k, *plan, *old(iv)),
        match r {
            Some(q) => final(iv).step < 9 && step_applies(final(iv).step as int, *plan, *old(iv))
                && q == step_question(final(iv).step as int),
            None => final(iv).step == 9 || old(iv).step > 9,
        },
{
    if iv.step > 9 {
        return None;
    }
    while iv.step < 9
        invariant
            iv.want_key == old(iv).want_key,
            iv.want_allow_users == old(iv).want_allow_users,
            old(iv).step <= iv.step <= 9,
            forall|k: int| old(iv).step <= k < iv.step ==> !step_applies(k, *plan, *old(iv)),
        decreases 9 - iv.step,
    {
        if applies(iv.step, plan, iv) {
            return Some(question_of(iv.step));
        }
        iv.step = iv.step + 1;
    }
    None
}

/// Takes the answer to the question of the step where the interview stands
/// and moves past it: an empty text leaves the port, user or `AllowUsers`
/// open; a port must be valid; a yes to replacing the key or to writing
/// `AllowUsers` opens the follow-up, a no to replacing the key skips it for
/// good; a key path rotates the key.
pub fn answer_question(iv: &mut Interview, plan: &mut SetupPlan, answer: PlanAnswer) -> (r: Result<
    (),
    CliError,
>)
    requires
        old(iv).step < 9,
    ensures
        final(iv).step == old(iv).step + 1,
        ({
            let q = step_question(old(iv).step as int);
            match answer {
                PlanAnswer::Text(t) => if q == PlanQuestion::Port {
                    if trim(t@).len() == 0 {
                        r is Ok && *final(plan) == *old(plan)
                    } else {
                        match ssh_port(t@) {
                            Ok(p) => r is Ok && *final(plan) == (SetupPlan {
                                port: Some(p),
                                ..*old(plan)
                            }),
                            Err(m) => r matches Err(e) && e.message@ == m && *final(plan)
                                == *old(plan),
                        }
                    }
                } else if q == PlanQuestion::User {
                    r is Ok && *final(plan) == if trim(t@).len() == 0 {
                        *old(plan)
                    } else {
                        SetupPlan { user: Some(t), ..*old(plan) }
                    }
                } else if q == PlanQuestion::KeyPath {
                    r is Ok && *final(plan) == (SetupPlan {
                        pubkey_file: Some(t),
                        rotate_authorized_key: true,
                        ..*old(plan)
                    })
                } else if q == PlanQuestion::AllowUsers {
                    r is Ok && *final(plan) == if trim(t@).len() == 0 {
                        *old(plan)
                    } else {
                        SetupPlan { allow_users: Some(t), ..*old(plan) }
                    }
                } else {
                    r is Ok && *final(plan) == *old(plan)
                },
                PlanAnswer::YesNo(b) => if q == PlanQuestion::ReplaceKey {
                    r is Ok && *final(plan) == if b {
                        *old(plan)
                    } else {
                        SetupPlan { skip_pubkey: true, ..*old(plan) }
                    }
                } else if q == PlanQuestion::DisableRootLogin {
                    r is Ok && *final(plan) == (SetupPlan { disable_root_login: b, ..*old(plan) })
                } else if q == PlanQuestion::DisablePasswordAuth {
                    r is Ok && *final(plan) == (SetupPlan { disable_password_auth: b, ..*old(plan) })
                } else if q == PlanQuestion::WriteHardening {
                    r is Ok && *final(plan) == (SetupPlan { write_hardening: b, ..*old(plan) })
                } else {
                    r is Ok && *final(plan) == *old(plan)
                },
            }
        }),
        final(iv).want_key == (old(iv).want_key || (step_question(old(iv).step as int)
            == PlanQuestion::ReplaceKey && answer == PlanAnswer::YesNo(true))),
        final(iv).want_allow_users == (old(iv).want_allow_users || (step_question(
            old(iv).step as int,
        ) == PlanQuestion::SetAllowUsers && answer == PlanAnswer::YesNo(true))),
{
    let q = question_of(iv.step);
    iv.step = iv.step + 1;
    match answer {
        PlanAnswer::Text(t) => {
            let blank = trim_chars(&chars_of(t.as_str())).len() == 0;
            if q == PlanQuestion::Port {
                if !blank {
                    match parse_port(t.as_str()) {
                        Ok(p) => plan.port = Some(p),
                        Err(e) => return Err(e),
                    }
                }
            } else if q == PlanQuestion::User {
                if !blank {
                    plan.user = Some(t);
                }
            } else if q == PlanQuestion::KeyPath {
                plan.pubkey_file = Some(t);
                plan.rotate_authorized_key = true;
            } else if q == PlanQuestion::AllowUsers {
                if !blank {
                    plan.allow_users = Some(t);
                }
            }
        },
        PlanAnswer::YesNo(b) => {
            if q == PlanQuestion::ReplaceKey {
                if b {
                    iv.want_key = true;
                } else {
                    plan.skip_pubkey = true;
                }
            } else if q == PlanQuestion::SetAllowUsers {
                if b {
                    iv.want_allow_users = true;
                }
            } else if q == PlanQuestion::DisableRootLogin {
                plan.disable_root_login = b;
            } else if q == PlanQuestion::DisablePasswordAuth {
                plan.disable_password_auth = b;
            } else if q == PlanQuestion::WriteHardening {
                plan.write_hardening = b;
            }
        },
    }
    Ok(())
}

// ---------------------------------------------------------------------------
// The managed configuration
// ---------------------------------------------------------------------------

fn push_line(v: &mut Vec<Vec<char>>, c: Vec<char>)
    ensures
        views(final(v)@) == views(old(v)@).push(c@),
{
    let ghost before = views(v@);
    let ghost cv = c@;
    v.push(c);
    assert(views(v@) =~= before.push(cv));
}

/// The `Port` line of a plan, if it sets a port.
pub open spec fn port_lines(plan: SetupPlan) -> Seq<Seq<char>> {
    match plan.port {
        Some(p) => seq!["Port "@ + decimal(p as nat)],
        None => seq![],
    }
}

/// The lines that turn off password logins, when the plan does; the two
/// keyboard login keywords only where this `sshd` knows them.
pub open spec fn password_lines(plan: SetupPlan, kbd_interactive: bool, challenge_response: bool) -> Seq<
    Seq<char>,
> {
    if plan.disable_password_auth {
        seq!["PasswordAuthentication no"@] + (if kbd_interactive {
            seq!["KbdInteractiveAuthentication no"@]
        } else {
            seq![]
        }) + (if challenge_response {
            seq!["ChallengeResponseAuthentication no"@]
        } else {
            seq![]
        })
    } else {
        seq![]
    }
}

/// The `AllowUsers` line of a plan, if it sets the list (trimmed).
pub open spec fn allow_lines(plan: SetupPlan) -> Seq<Seq<char>> {
    match plan.allow_users {
        Some(a) => seq!["AllowUsers "@ + trim(a@)],
        None => seq![],
    }
}

/// The basic hardening lines, when the plan writes them.
pub open spec fn hardening_lines(plan: SetupPlan) -> Seq<Seq<char>> {
    if plan.write_hardening {
        seq![
            "PermitEmptyPasswords no"@,
            "X11Forwarding no"@,
            "MaxAuthTries 3"@,
            "LoginGraceTime 30"@,
            "UseDNS no"@,
        ]
    } else {
        seq![]
    }
}

/// The lines of the managed configuration for a plan; `kbd_interactive`
/// and `challenge_response` tell which of the two keyboard login keywords
/// this `sshd` knows.
pub open spec fn managed_lines(plan: SetupPlan, kbd_interactive: bool, challenge_response: bool) -> Seq<
    Seq<char>,
> {
    seq!["# vps-cli managed configuration"@] + port_lines(plan) + (if plan.disable_root_login {
        seq!["PermitRootLogin no"@]
    } else {
        seq![]
    }) + password_lines(plan, kbd_interactive, challenge_response) + allow_lines(plan)
        + hardening_lines(plan)
}

/// A line of text: no line break in it, and no carriage return at its end.
pub open spec fn one_line(l: Seq<char>) -> bool {
    &&& forall|k: int| 0 <= k < l.len() ==> l[k] != '\n'
    &&& l.len() > 0 ==> l.last() != '\r'
}

/// Whether the `AllowUsers` list of a plan, trimmed, holds no line break;
/// one that does would be written over several lines.
pub open spec fn allow_users_on_one_line(plan: SetupPlan) -> bool {
    match plan.allow_users {
        Some(a) => forall|k: int| 0 <= k < trim(a@).len() ==> trim(a@)[k] != '\n',
        None => true,
    }
}

proof fn lemma_literal_line(l: Seq<char>)
    requires
        forall|k: int| 0 <= k < l.len() ==> 'A' <= #[trigger] l[k] <= 'z' || l[k] == ' ' || l[k] == '#'
            || l[k] == '-' || ('0' <= l[k] <= '9'),
    ensures
        one_line(l),
{
    if l.len() > 0 {
        assert('A' <= l[l.len() - 1] <= 'z' || l[l.len() - 1] == ' ' || l[l.len() - 1] == '#' || l[l.len() - 1] == '-' || ('0' <= l[l.len() - 1] <= '9'));
    }
}

/// Whether the lines `ls` of an `sshd` drop-in start with the managed
/// header and carry each option that the plan turns on, as its `sshd` line.
pub open spec fn carries_plan(ls: Seq<Seq<char>>, plan: SetupPlan, kbd_interactive: bool, challenge_response: bool) -> bool {
    &&& ls.len() > 0
    &&& ls[0] == "# vps-cli managed configuration"@
    &&& (plan.port matches Some(p) ==> ls.contains("Port "@ + decimal(p as nat)))
    &&& (plan.disable_root_login ==> ls.contains("PermitRootLogin no"@))
    &&& (plan.disable_password_auth ==> ls.contains("PasswordAuthentication no"@))
    &&& (plan.disable_password_auth && kbd_interactive ==> ls.contains(
        "KbdInteractiveAuthentication no"@,
    ))
    &&& (plan.disable_password_auth && challenge_response ==> ls.contains(
        "ChallengeResponseAuthentication no"@,
    ))
    &&& (plan.allow_users matches Some(a) ==> ls.contains("AllowUsers "@ + trim(a@)))
    &&& (plan.write_hardening ==> ls.contains("PermitEmptyPasswords no"@) && ls.contains(
        "X11Forwarding no"@,
    ) && ls.contains("MaxAuthTries 3"@) && ls.contains("LoginGraceTime 30"@) && ls.contains(
        "UseDNS no"@,
    ))
}

/// The fixed lines of the managed configuration are lines of text.
proof fn lemma_fixed_lines_one_line()
    ensures
        one_line("# vps-cli managed configuration"@),
        one_line("PermitRootLogin no"@),
        one_line("PasswordAuthentication no"@),
        one_line("KbdInteractiveAuthentication no"@),
        one_line("ChallengeResponseAuthentication no"@),
        one_line("PermitEmptyPasswords no"@),
        one_line("X11Forwarding no"@),
        one_line("MaxAuthTries 3"@),
        one_line("LoginGraceTime 30"@),
        one_line("UseDNS no"@),
{
    reveal_strlit("# vps-cli managed configuration");
    lemma_literal_line("# vps-cli managed configuration"@);
    reveal_strlit("PermitRootLogin no");
    lemma_literal_line("PermitRootLogin no"@);
    reveal_strlit("PasswordAuthentication no");
    lemma_literal_line("PasswordAuthentication no"@);
    reveal_strlit("KbdInteractiveAuthentication no");
    lemma_literal_line("KbdInteractiveAuthentication no"@);
    reveal_strlit("ChallengeResponseAuthentication no");
    lemma_literal_line("ChallengeResponseAuthentication no"@);
    reveal_strlit("PermitEmptyPasswords no");
    lemma_literal_line("PermitEmptyPasswords no"@);
    reveal_strlit("X11Forwarding no");
    lemma_literal_line("X11Forwarding no"@);
    reveal_strlit("MaxAuthTries 3");
    lemma_literal_line("MaxAuthTries 3"@);
    reveal_strlit("LoginGraceTime 30");
    lemma_literal_line("LoginGraceTime 30"@);
    reveal_strlit("UseDNS no");
    lemma_literal_line("UseDNS no"@);
}

/// The port and `AllowUsers` lines of a plan are lines of text.
proof fn lemma_plan_lines_one_line(plan: SetupPlan)
    requires
        allow_users_on_one_line(plan),
    ensures
        forall|i: int| 0 <= i < port_lines(plan).len() ==> one_line(#[trigger] port_lines(plan)[i]),
        forall|i: int| 0 <= i < allow_lines(plan).len() ==> one_line(#[trigger] allow_lines(plan)[i]),
{
    reveal_strlit("Port ");
    reveal_strlit("AllowUsers ");
    match plan.port {
        Some(p) => {
            let d = decimal(p as nat);
            lemma_decimal_digits(p as nat);
            let l = "Port "@ + d;
            assert forall|k: int| 0 <= k < l.len() implies 'A' <= #[trigger] l[k] <= 'z' || l[k] == ' ' || l[k]
                == '#' || l[k] == '-' || ('0' <= l[k] <= '9') by {
                if k >= 5 {
                    assert(l[k] == d[k - 5]);
                    assert(is_digit(d[k - 5]));
                }
            }
            lemma_literal_line(l);
            assert(port_lines(plan) == seq![l]);
        },
        None => {},
    }
    match plan.allow_users {
        Some(a) => {
            let t = trim(a@);
            let l = "AllowUsers "@ + t;
            lemma_trim_end_last(trim_start(a@));
            assert forall|k: int| 0 <= k < l.len() implies l[k] != '\n' by {
                if k >= 11 {
                    assert(l[k] == t[k - 11]);
                }
            }
            if t.len() > 0 {
                assert(l.last() == t.last());
                assert(!is_ws(t.last()));
            }
            assert(one_line(l));
            assert(allow_lines(plan) == seq![l]);
        },
        None => {},
    }
}

/// Every line of the managed configuration is a line of text.
proof fn lemma_managed_lines_one_line(plan: SetupPlan, kbd_interactive: bool, challenge_response: bool)
    requires
        allow_users_on_one_line(plan),
    ensures
        forall|i: int|
            0 <= i < managed_lines(plan, kbd_interactive, challenge_response).len() ==> one_line(
                #[trigger] managed_lines(plan, kbd_interactive, challenge_response)[i],
            ),
{
    lemma_fixed_lines_one_line();
    lemma_plan_lines_one_line(plan);
    let header = "# vps-cli managed configuration"@;
    let pl = port_lines(plan);
    let rl = if plan.disable_root_login {
        seq!["PermitRootLogin no"@]
    } else {
        seq![]
    };
    let wl = password_lines(plan, kbd_interactive, challenge_response);
    let al = allow_lines(plan);
    let hl = hardening_lines(plan);
    let ml = managed_lines(plan, kbd_interactive, challenge_response);
    assert(ml == seq![header] + pl + rl + wl + al + hl);
    assert forall|i: int| 0 <= i < wl.len() implies one_line(#[trigger] wl[i]) by {
        if plan.disable_password_auth {
            if i == 0 {
            } else if i == 1 && kbd_interactive {
            } else {
            }
        }
    }
    assert forall|i: int| 0 <= i < hl.len() implies one_line(#[trigger] hl[i]) by {}
    assert forall|i: int| 0 <= i < ml.len() implies one_line(#[trigger] ml[i]) by {
        let n1: int = 1int + pl.len();
        let n2: int = n1 + rl.len();
        let n3: int = n2 + wl.len();
        let n4: int = n3 + al.len();
        if i == 0 {
        } else if i < n1 {
            assert(ml[i] == pl[i - 1]);
        } else if i < n2 {
            assert(ml[i] == rl[i - n1]);
        } else if i < n3 {
            assert(ml[i] == wl[i - n2]);
        } else if i < n4 {
            assert(ml[i] == al[i - n3]);
        } else {
            assert(ml[i] == hl[i - n4]);
        }
    }
}

/// The managed configuration that `setup-ssh` writes carries, as lines of
/// the file, its header and each option the plan turns on: the new port,
/// `PermitRootLogin no`, `PasswordAuthentication no` (with the keyboard
/// login keywords that this `sshd` knows), the `AllowUsers` list, and the
/// basic hardening settings.
pub proof fn lemma_rendered_config_has_every_option(plan: SetupPlan, kbd_interactive: bool, challenge_response: bool)
    requires
        allow_users_on_one_line(plan),
    ensures
        carries_plan(
            lines(join(managed_lines(plan, kbd_interactive, challenge_response), "\n"@) + "\n"@),
            plan,
            kbd_interactive,
            challenge_response,
        ),
{
    let ml = managed_lines(plan, kbd_interactive, challenge_response);
    lemma_managed_lines_one_line(plan, kbd_interactive, challenge_response);
    assert forall|i: int, k: int| 0 <= i < ml.len() && 0 <= k < ml[i].len() implies #[trigger] ml[i][k] != '\n' by {
        assert(one_line(ml[i]));
    }
    assert forall|i: int| 0 <= i < ml.len() && (#[trigger] ml[i]).len() > 0 implies ml[i].last() != '\r' by {
        assert(one_line(ml[i]));
    }
    reveal_strlit("\n");
    assert("\n"@ =~= seq!['\n']);
    lemma_lines_of_joined(ml);
    lemma_managed_lines_positions(plan, kbd_interactive, challenge_response);
}

/// Where each option stands in the managed lines.
proof fn lemma_managed_lines_positions(plan: SetupPlan, kbd_interactive: bool, challenge_response: bool)
    ensures
        carries_plan(managed_lines(plan, kbd_interactive, challenge_response), plan, kbd_interactive, challenge_response),
{
    let header = "# vps-cli managed configuration"@;
    let pl = port_lines(plan);
    let rl = if plan.disable_root_login {
        seq!["PermitRootLogin no"@]
    } else {
        seq![]
    };
    let wl = password_lines(plan, kbd_interactive, challenge_response);
    let al = allow_lines(plan);
    let hl = hardening_lines(plan);
    let ml = managed_lines(plan, kbd_interactive, challenge_response);
    assert(ml == seq![header] + pl + rl + wl + al + hl);
    let n1: int = 1int + pl.len();
    let n2: int = n1 + rl.len();
    let n3: int = n2 + wl.len();
    let n4: int = n3 + al.len();
    assert(ml[0] == header);
    if plan.port is Some {
        assert(ml[1] == pl[0]);
    }
    if plan.disable_root_login {
        assert(ml[n1] == rl[0]);
    }
    if plan.disable_password_auth {
        assert(ml[n2] == wl[0]);
        if kbd_interactive {
            assert(ml[n2 + 1] == wl[1]);
        }
        if challenge_response {
            let c: int = if kbd_interactive {
                2
            } else {
                1
            };
            assert(wl[c] == "ChallengeResponseAuthentication no"@);
            assert(ml[n2 + c] == wl[c]);
        }
    }
    if plan.allow_users is Some {
        assert(ml[n3] == al[0]);
    }
    if plan.write_hardening {
        assert(ml[n4] == hl[0]);
        assert(ml[n4 + 1] == hl[1]);
        assert(ml[n4 + 2] == hl[2]);
        assert(ml[n4 + 3] == hl[3]);
        assert(ml[n4 + 4] == hl[4]);
    }
}

fn extend_lines(a: &mut Vec<Vec<char>>, b: Vec<Vec<char>>)
    ensures
        views(final(a)@) == views(old(a)@) + views(b@),
{
    let ghost before = views(a@);
    let ghost bv = views(b@);
    let mut b = b;
    a.append(&mut b);
    assert(views(a@) =~= before + bv);
}

fn port_lines_of(plan: &SetupPlan) -> (r: Vec<Vec<char>>)
    ensures
        views(r@) == port_lines(*plan),
{
    let mut v: Vec<Vec<char>> = Vec::new();
    if let Some(port) = plan.port {
        let mut l = chars_of("Port ");
        append(&mut l, &decimal_chars(port as u64));
        push_line(&mut v, l);
    }
    assert(views(v@) =~= port_lines(*plan));
    v
}

fn password_lines_of(plan: &SetupPlan, kbd_interactive: bool, challenge_response: bool) -> (r: Vec<
    Vec<char>,
>)
    ensures
        views(r@) == password_lines(*plan, kbd_interactive, challenge_response),
{
    let mut v: Vec<Vec<char>> = Vec::new();
    if plan.disable_password_auth {
        push_line(&mut v, chars_of("PasswordAuthentication no"));
        let ghost a = views(v@);
        if kbd_interactive {
            push_line(&mut v, chars_of("KbdInteractiveAuthentication no"));
        }
        let ghost b = views(v@);
        assert(b =~= a + (if kbd_interactive {
            seq!["KbdInteractiveAuthentication no"@]
        } else {
            seq![]
        }));
        if challenge_response {
            push_line(&mut v, chars_of("ChallengeResponseAuthentication no"));
        }
        assert(views(v@) =~= b + (if challenge_response {
            seq!["ChallengeResponseAuthentication no"@]
        } else {
            seq![]
        }));
    }
    assert(views(v@) =~= password_lines(*plan, kbd_interactive, challenge_response));
    v
}

fn allow_lines_of(plan: &SetupPlan) -> (r: Vec<Vec<char>>)
    ensures
        views(r@) == allow_lines(*plan),
{
    let mut v: Vec<Vec<char>> = Vec::new();
    if let Some(a) = &plan.allow_users {
        let mut l = chars_of("AllowUsers ");
        append(&mut l, &trim_chars(&chars_of(a.as_str())));
        push_line(&mut v, l);
    }
    assert(views(v@) =~= allow_lines(*plan));
    v
}

fn hardening_lines_of(plan: &SetupPlan) -> (r: Vec<Vec<char>>)
    ensures
        views(r@) == hardening_lines(*plan),
{
    let mut v: Vec<Vec<char>> = Vec::new();
    if plan.write_hardening {
        push_line(&mut v, chars_of("PermitEmptyPasswords no"));
        push_line(&mut v, chars_of("X11Forwarding no"));
        push_line(&mut v, chars_of("MaxAuthTries 3"));
        push_line(&mut v, chars_of("LoginGraceTime 30"));
        push_line(&mut v, chars_of("UseDNS no"));
    }
    assert(views(v@) =~= hardening_lines(*plan));
    v
}

/// The managed configuration file for a plan: its lines, each ending in a
/// line break.
pub fn render_managed_config(plan: &SetupPlan, kbd_interactive: bool, challenge_response: bool) -> (r:
    String)
    ensures
        r@ == join(managed_lines(*plan, kbd_interactive, challenge_response), "\n"@) + "\n"@,
        allow_users_on_one_line(*plan) ==> carries_plan(lines(r@), *plan, kbd_interactive, challenge_response),
{
    let mut lines: Vec<Vec<char>> = Vec::new();
    push_line(&mut lines, chars_of("# vps-cli managed configuration"));
    extend_lines(&mut lines, port_lines_of(plan));
    let ghost l1 = views(lines@);
    if plan.disable_root_login {
        push_line(&mut lines, chars_of("PermitRootLogin no"));
    }
    assert(views(lines@) =~= l1 + (if plan.disable_root_login {
        seq!["PermitRootLogin no"@]
    } else {
        seq![]
    }));
    extend_lines(&mut lines, password_lines_of(plan, kbd_interactive, challenge_response));
    extend_lines(&mut lines, allow_lines_of(plan));
    extend_lines(&mut lines, hardening_lines_of(plan));
    assert(views(lines@) =~= managed_lines(*plan, kbd_interactive, challenge_response));
    let mut text = join_chars(&lines, &chars_of("\n"));
    append_str(&mut text, "\n");
    proof {
        if allow_users_on_one_line(*plan) {
            lemma_rendered_config_has_every_option(*plan, kbd_interactive, challenge_response);
        }
    }
    string_of(&text)
}

/// Whether `sshd -T` lists the keyword: some line of its output starts with
/// the keyword in lowercase.
pub open spec fn lists_keyword(output: Seq<char>, keyword: Seq<char>) -> bool {
    exists|i: int|
        0 <= i < lines(output).len() && starts_with(
            #[trigger] lines(output)[i],
            unicode_lowercase(keyword),
        )
}

/// Whether `sshd -T` (whose output is `output`) lists the keyword.
pub fn sshd_supports_keyword(output: &str, keyword: &str) -> (r: bool)
    ensures
        r == lists_keyword(output@, keyword@),
{
    let lower = chars_of(to_lowercase(keyword).as_str());
    let ls = lines_of(&chars_of(output));
    let ghost lv = views(ls@);
    let n = ls.len();
    for i in 0..n
        invariant
            n == ls@.len(),
            lv == views(ls@),
            lv == lines(output@),
            lower@ == unicode_lowercase(keyword@),
            forall|k: int| 0 <= k < i ==> !starts_with(#[trigger] lv[k], lower@),
    {
        assert(lv[i as int] == ls@[i as int]@);
        if starts_with_chars(&ls[i], &lower) {
            return true;
        }
    }
    false
}

// ---------------------------------------------------------------------------
// The effective configuration
// ---------------------------------------------------------------------------

/// The value of `key` on one line of `sshd -T`: the words after the key
/// joined by spaces, when the first word is the key.
pub open spec fn line_value(line: Seq<char>, key: Seq<char>) -> Option<Seq<char>> {
    let ws = words(line);
    if ws.len() > 0 && ws[0] == key {
        Some(join(ws.drop_first(), " "@))
    } else {
        None
    }
}

/// The values of `key` on the lines, in order.
pub open spec fn values_of(ls: Seq<Seq<char>>, key: Seq<char>) -> Seq<Seq<char>>
    decreases ls.len(),
{
    if ls.len() == 0 {
        seq![]
    } else {
        let rest = values_of(ls.drop_last(), key);
        match line_value(ls.last(), key) {
            Some(v) => rest.push(v),
            None => rest,
        }
    }
}

fn line_value_of(line: &Vec<char>, key: &Vec<char>) -> (r: Option<Vec<char>>)
    ensures
        match r {
            Some(v) => line_value(line@, key@) == Some(v@),
            None => line_value(line@, key@) is None,
        },
{
    let ws = words_of(line);
    if ws.len() > 0 && chars_eq(&ws[0], key) {
        let mut rest: Vec<Vec<char>> = Vec::new();
        let n = ws.len();
        for i in 1..n
            invariant
                n == ws@.len(),
                n > 0,
                views(rest@) =~= views(ws@).drop_first().take(i - 1),
        {
            let ghost before = views(rest@);
            let c = ws[i].clone();
            let ghost cv = c@;
            rest.push(c);
            assert(views(rest@) =~= before.push(cv));
        }
        assert(views(ws@).drop_first().take(n - 1) =~= views(ws@).drop_first());
        Some(join_chars(&rest, &chars_of(" ")))
    } else {
        None
    }
}

fn values_in(ls: &Vec<Vec<char>>, key: &Vec<char>) -> (r: Vec<String>)
    ensures
        texts(r@) == values_of(views(ls@), key@),
{
    let ghost lv = views(ls@);
    let mut out: Vec<String> = Vec::new();
    let n = ls.len();
    for i in 0..n
        invariant
            n == ls@.len(),
            lv == views(ls@),
            texts(out@) == values_of(lv.take(i as int), key@),
    {
        assert(lv.take(i + 1).drop_last() =~= lv.take(i as int));
        assert(lv.take(i + 1).last() == ls@[i as int]@);
        match line_value_of(&ls[i], key) {
            Some(v) => {
                let ghost before = texts(out@);
                out.push(string_of(&v));
                assert(texts(out@) =~= before.push(v@));
            },
            None => {},
        }
    }
    assert(lv.take(n as int) =~= lv);
    out
}

/// The values of `key` in the output of `sshd -T`, one per line that sets
/// it.
pub fn effective_values(effective: &str, key: &str) -> (r: Vec<String>)
    ensures
        texts(r@) == values_of(lines(effective@), key@),
{
    values_in(&lines_of(&chars_of(effective)), &chars_of(key))
}

/// What `format!("{:?}", v)` gives for a list of strings.
pub uninterp spec fn debug_strings(v: Seq<Seq<char>>) -> Seq<char>;

/// `format!("{:?}", v)` for a list of strings: the strings quoted and
/// escaped the way `Debug` does it, between square brackets and separated
/// by `, `, so `[]` for none.
#[verifier::external_body]
fn debug_list(v: &Vec<String>) -> (r: String)
    ensures
        r@ == debug_strings(texts(v@)),
        v@.len() == 0 ==> r@ == "[]"@,
{
    format!("{:?}", v)
}

/// What is wrong when `key` does not have the value `expected` on any line.
pub open spec fn expect_problem(ls: Seq<Seq<char>>, key: Seq<char>, expected: Seq<char>) -> Option<
    Seq<char>,
> {
    let vs = values_of(ls, key);
    if vs.contains(expected) {
        None
    } else {
        Some(key + " 未按预期生效，期望 "@ + expected + "，当前 "@ + debug_strings(vs))
    }
}

fn expect_in(ls: &Vec<Vec<char>>, key: &str, expected: &str) -> (r: Result<(), CliError>)
    ensures
        match expect_problem(views(ls@), key@, expected@) {
            None => r is Ok,
            Some(m) => r matches Err(e) && e.message@ == m,
        },
{
    let vs = values_in(ls, &chars_of(key));
    let ghost tv = texts(vs@);
    let n = vs.len();
    for i in 0..n
        invariant
            n == vs@.len(),
            tv == texts(vs@),
            tv == values_of(views(ls@), key@),
            forall|k: int| 0 <= k < i ==> tv[k] != expected@,
    {
        if str_eq(vs[i].as_str(), expected) {
            assert(tv[i as int] == expected@);
            return Ok(());
        }
    }
    assert(!tv.contains(expected@));
    Err(unexpected_value_error(key, expected, debug_list(&vs).as_str()))
}

/// The error when `key` is not in effect with the value `expected`; `current`
/// shows the values it has.
pub fn unexpected_value_error(key: &str, expected: &str, current: &str) -> (r: CliError)
    ensures
        r.message@ == key@ + " 未按预期生效，期望 "@ + expected@ + "，当前 "@ + current@,
        r.code == 1,
        r.suggestions@.len() == 0,
        r.warnings@.len() == 0,
{
    let mut m = chars_of(key);
    append_str(&mut m, " 未按预期生效，期望 ");
    append_str(&mut m, expected);
    append_str(&mut m, "，当前 ");
    append_str(&mut m, current);
    CliError::from_message(string_of(&m))
}

/// Checks that `key` has the value `expected` in the output of `sshd -T`.
pub fn expect_effective(effective: &str, key: &str, expected: &str) -> (r: Result<(), CliError>)
    ensures
        match expect_problem(lines(effective@), key@, expected@) {
            None => r is Ok,
            Some(m) => r matches Err(e) && e.message@ == m,
        },
{
    expect_in(&lines_of(&chars_of(effective)), key, expected)
}

/// The first of two possible problems.
pub open spec fn first_problem(a: Option<Seq<char>>, b: Option<Seq<char>>) -> Option<Seq<char>> {
    if a is Some {
        a
    } else {
        b
    }
}

/// The first word of `expected` that is not among `actual`.
pub open spec fn first_missing(expected: Seq<Seq<char>>, actual: Seq<Seq<char>>) -> Option<Seq<char>>
    decreases expected.len(),
{
    if expected.len() == 0 {
        None
    } else if actual.contains(expected[0]) {
        first_missing(expected.drop_first(), actual)
    } else {
        Some(expected[0])
    }
}

/// What is wrong with the effective port.
pub open spec fn port_problem(ls: Seq<Seq<char>>, port: Option<u16>) -> Option<Seq<char>> {
    match port {
        Some(p) => if values_of(ls, "port"@).contains(decimal(p as nat)) {
            None
        } else {
            Some("Port 未按预期生效，期望 "@ + decimal(p as nat))
        },
        None => None,
    }
}

/// What is wrong with the effective password login settings.
pub open spec fn password_problem(
    ls: Seq<Seq<char>>,
    disable: bool,
    kbd_interactive: bool,
    challenge_response: bool,
) -> Option<Seq<char>> {
    if !disable {
        None
    } else {
        first_problem(
            expect_problem(ls, "passwordauthentication"@, "no"@),
            first_problem(
                if kbd_interactive {
                    expect_problem(ls, "kbdinteractiveauthentication"@, "no"@)
                } else {
                    None
                },
                if challenge_response {
                    expect_problem(ls, "challengeresponseauthentication"@, "no"@)
                } else {
                    None
                },
            ),
        )
    }
}

/// What is wrong with the effective `AllowUsers`: it is empty, or it misses
/// a user of the plan's list.
pub open spec fn allow_problem(ls: Seq<Seq<char>>, allow_users: Option<Seq<char>>) -> Option<Seq<char>> {
    match allow_users {
        None => None,
        Some(a) => {
            let actual = join(values_of(ls, "allowusers"@), " "@);
            if trim(actual).len() == 0 {
                Some("AllowUsers 未按预期生效"@)
            } else {
                match first_missing(words(a), words(actual)) {
                    Some(u) => Some("AllowUsers 未包含预期用户 "@ + u),
                    None => None,
                }
            }
        },
    }
}

/// What is wrong with the effective hardening settings.
pub open spec fn hardening_problem(ls: Seq<Seq<char>>, write: bool) -> Option<Seq<char>> {
    if !write {
        None
    } else {
        first_problem(
            expect_problem(ls, "permitemptypasswords"@, "no"@),
            first_problem(
                expect_problem(ls, "x11forwarding"@, "no"@),
                first_problem(
                    expect_problem(ls, "maxauthtries"@, "3"@),
                    first_problem(
                        expect_problem(ls, "logingracetime"@, "30"@),
                        expect_problem(ls, "usedns"@, "no"@),
                    ),
                ),
            ),
        )
    }
}

/// The first way in which the output of `sshd -T` does not show the plan in
/// effect: port, root login, password logins, `AllowUsers`, hardening.
pub open spec fn effective_problem(
    plan: SetupPlan,
    effective: Seq<char>,
    kbd_interactive: bool,
    challenge_response: bool,
) -> Option<Seq<char>> {
    let ls = lines(effective);
    first_problem(
        port_problem(ls, plan.port),
        first_problem(
            if plan.disable_root_login {
                expect_problem(ls, "permitrootlogin"@, "no"@)
            } else {
                None
            },
            first_problem(
                password_problem(
                    ls,
                    plan.disable_password_auth,
                    kbd_interactive,
                    challenge_response,
                ),
                first_problem(
                    allow_problem(ls, opt_view(plan.allow_users)),
                    hardening_problem(ls, plan.write_hardening),
                ),
            ),
        ),
    )
}

fn contains_text(vs: &Vec<String>, x: &Vec<char>) -> (r: bool)
    ensures
        r == texts(vs@).contains(x@),
{
    let n = vs.len();
    for i in 0..n
        invariant
            n == vs@.len(),
            forall|k: int| 0 <= k < i ==> texts(vs@)[k] != x@,
    {
        if chars_eq(&chars_of(vs[i].as_str()), x) {
            assert(texts(vs@)[i as int] == x@);
            return true;
        }
    }
    false
}

fn check_port(ls: &Vec<Vec<char>>, port: Option<u16>) -> (r: Result<(), CliError>)
    ensures
        match port_problem(views(ls@), port) {
            None => r is Ok,
            Some(m) => r matches Err(e) && e.message@ == m,
        },
{
    if let Some(p) = port {
        let vs = values_in(ls, &chars_of("port"));
        let d = decimal_chars(p as u64);
        if !contains_text(&vs, &d) {
            let mut m = chars_of("Port 未按预期生效，期望 ");
            append(&mut m, &d);
            return Err(CliError::from_message(string_of(&m)));
        }
    }
    Ok(())
}

fn check_password(ls: &Vec<Vec<char>>, disable: bool, kbd: bool, chal: bool) -> (r: Result<
    (),
    CliError,
>)
    ensures
        match password_problem(views(ls@), disable, kbd, chal) {
            None => r is Ok,
            Some(m) => r matches Err(e) && e.message@ == m,
        },
{
    if disable {
        if let Err(e) = expect_in(ls, "passwordauthentication", "no") {
            return Err(e);
        }
        if kbd {
            if let Err(e) = expect_in(ls, "kbdinteractiveauthentication", "no") {
                return Err(e);
            }
        }
        if chal {
            if let Err(e) = expect_in(ls, "challengeresponseauthentication", "no") {
                return Err(e);
            }
        }
    }
    Ok(())
}

fn check_allow_users(ls: &Vec<Vec<char>>, allow_users: &Option<String>) -> (r: Result<(), CliError>)
    ensures
        match allow_problem(views(ls@), opt_view(*allow_users)) {
            None => r is Ok,
            Some(m) => r matches Err(e) && e.message@ == m,
        },
{
    if let Some(a) = allow_users {
        let vs = values_in(ls, &chars_of("allowusers"));
        let mut parts: Vec<Vec<char>> = Vec::new();
        let n = vs.len();
        for i in 0..n
            invariant
                n == vs@.len(),
                views(parts@) =~= texts(vs@).take(i as int),
        {
            let ghost before = views(parts@);
            let c = chars_of(vs[i].as_str());
            let ghost cv = c@;
            parts.push(c);
            assert(views(parts@) =~= before.push(cv));
            assert(texts(vs@).take(i + 1) =~= texts(vs@).take(i as int).push(vs@[i as int]@));
        }
        assert(texts(vs@).take(n as int) =~= texts(vs@));
        let actual = join_chars(&parts, &chars_of(" "));
        if trim_chars(&actual).len() == 0 {
            return Err(CliError::new("AllowUsers 未按预期生效"));
        }
        let expected = words_of(&chars_of(a.as_str()));
        let present = words_of(&actual);
        let ghost ev = views(expected@);
        let ghost pv = views(present@);
        let m = expected.len();
        let mut i: usize = 0;
        assert(ev.skip(0) =~= ev);
        while i < m
            invariant
                m == expected@.len(),
                ev == views(expected@),
                i <= m,
                first_missing(ev, pv) == first_missing(ev.skip(i as int), pv),
                pv == views(present@),
                ev == words(a@),
                pv == words(join(values_of(views(ls@), "allowusers"@), " "@)),
                trim(join(values_of(views(ls@), "allowusers"@), " "@)).len() > 0,
                *allow_users == Some(*a),
            decreases m - i,
        {
            assert(ev.skip(i as int)[0] == expected@[i as int]@);
            assert(ev.skip(i as int).drop_first() =~= ev.skip(i + 1));
            let u = &expected[i];
            let k = present.len();
            let mut found = false;
            for j in 0..k
                invariant
                    k == present@.len(),
                    pv == views(present@),
                    found <==> exists|x: int| 0 <= x < j && pv[x] == u@,
            {
                if chars_eq(&present[j], u) {
                    assert(pv[j as int] == u@);
                    found = true;
                }
            }
            assert(found <==> pv.contains(u@));
            if !found {
                let mut msg = chars_of("AllowUsers 未包含预期用户 ");
                append(&mut msg, u);
                return Err(CliError::from_message(string_of(&msg)));
            }
            i = i + 1;
        }
    }
    Ok(())
}

fn check_hardening(ls: &Vec<Vec<char>>, write: bool) -> (r: Result<(), CliError>)
    ensures
        match hardening_problem(views(ls@), write) {
            None => r is Ok,
            Some(m) => r matches Err(e) && e.message@ == m,
        },
{
    if write {
        if let Err(e) = expect_in(ls, "permitemptypasswords", "no") {
            return Err(e);
        }
        if let Err(e) = expect_in(ls, "x11forwarding", "no") {
            return Err(e);
        }
        if let Err(e) = expect_in(ls, "maxauthtries", "3") {
            return Err(e);
        }
        if let Err(e) = expect_in(ls, "logingracetime", "30") {
            return Err(e);
        }
        if let Err(e) = expect_in(ls, "usedns", "no") {
            return Err(e);
        }
    }
    Ok(())
}

/// Checks the output of `sshd -T` against the plan (see
/// [`effective_problem`]).
pub fn verify_effective_config(
    plan: &SetupPlan,
    effective: &str,
    kbd_interactive: bool,
    challenge_response: bool,
) -> (r: Result<(), CliError>)
    ensures
        match effective_problem(*plan, effective@, kbd_interactive, challenge_response) {
            None => r is Ok,
            Some(m) => r matches Err(e) && e.message@ == m,
        },
{
    let ls = lines_of(&chars_of(effective));
    if let Err(e) = check_port(&ls, plan.port) {
        return Err(e);
    }
    if plan.disable_root_login {
        if let Err(e) = expect_in(&ls, "permitrootlogin", "no") {
            return Err(e);
        }
    }
    if let Err(e) = check_password(
        &ls,
        plan.disable_password_auth,
        kbd_interactive,
        challenge_response,
    ) {
        return Err(e);
    }
    if let Err(e) = check_allow_users(&ls, &plan.allow_users) {
        return Err(e);
    }
    check_hardening(&ls, plan.write_hardening)
}

// ---------------------------------------------------------------------------
// Files, users and the machine
// ---------------------------------------------------------------------------

/// Whether a line of `sshd_config` includes the drop-in directory: after
/// leading whitespace it starts with `Include` and names `sshd_config.d`.
pub open spec fn includes_drop_ins(line: Seq<char>) -> bool {
    starts_with(trim_start(line), "Include"@) && contains(trim_start(line), "sshd_config.d"@)
}

/// The main `sshd_config` with the drop-in directory included: nothing to
/// change when a line includes it already; else the text with a final line
/// break and the `Include` line appended.
pub open spec fn with_include(contents: Seq<char>) -> Option<Seq<char>> {
    if exists|i: int| 0 <= i < lines(contents).len() && includes_drop_ins(#[trigger] lines(contents)[i]) {
        None
    } else {
        Some(
            (if ends_with(contents, "\n"@) {
                contents
            } else {
                contents + "\n"@
            }) + "Include /etc/ssh/sshd_config.d/*.conf\n"@,
        )
    }
}

/// The main `sshd_config` with the drop-in directory included (see
/// [`with_include`]).
pub fn with_include_directive(contents: &str) -> (r: Option<String>)
    ensures
        opt_view(r) == with_include(contents@),
{
    let ls = lines_of(&chars_of(contents));
    let ghost lv = views(ls@);
    let n = ls.len();
    for i in 0..n
        invariant
            n == ls@.len(),
            lv == views(ls@),
            lv == lines(contents@),
            forall|k: int| 0 <= k < i ==> !includes_drop_ins(#[trigger] lv[k]),
    {
        let t = trim_start_chars(&ls[i]);
        assert(lv[i as int] == ls@[i as int]@);
        if starts_with_str(&t, "Include") && contains_str(&t, "sshd_config.d") {
            assert(includes_drop_ins(lv[i as int]));
            return None;
        }
    }
    let mut v = chars_of(contents);
    if !ends_with_str(&v, "\n") {
        append_str(&mut v, "\n");
    }
    append_str(&mut v, "Include /etc/ssh/sshd_config.d/*.conf\n");
    Some(string_of(&v))
}

/// Including the drop-in directory is done once: after the `Include` line
/// was appended to the main configuration, the result already includes the
/// directory and is left as it is.
pub proof fn lemma_include_directive_idempotent(contents: Seq<char>)
    ensures
        with_include(contents) matches Some(c2) ==> with_include(c2) is None,
{
    if let Some(c2) = with_include(contents) {
        reveal_strlit("\n");
        reveal_strlit("Include /etc/ssh/sshd_config.d/*.conf\n");
        reveal_strlit("Include");
        reveal_strlit("sshd_config.d");
        let base = if ends_with(contents, "\n"@) {
            contents
        } else {
            contents + "\n"@
        };
        let inc = "Include /etc/ssh/sshd_config.d/*.conf\n"@.drop_last();
        assert(c2 =~= base + inc + "\n"@);
        assert(base.len() > 0 && base.last() == '\n');
        let m = base + inc;
        assert(c2.drop_last() =~= m);
        assert(split_on(c2, '\n') == split_on(m, '\n').push(seq![]));
        assert(split_on(base, '\n') == split_on(base.drop_last(), '\n').push(seq![]));
        assert(forall|k: int| 0 <= k < inc.len() ==> inc[k] != '\n');
        lemma_split_on_append_plain(base, inc, '\n');
        assert(split_on(m, '\n').last() =~= inc);
        lemma_split_on_ends(m, '\n');
        let k = split_on(m, '\n').len() - 1;
        assert(lines(c2) =~= split_on(m, '\n').map_values(|l: Seq<char>| strip_cr(l)));
        assert(lines(c2)[k] == strip_cr(inc));
        assert(strip_cr(inc) == inc);
        assert(!is_ws(inc[0]));
        assert(trim_start(inc) == inc);
        assert(inc.take(7) =~= "Include"@);
        assert(inc.subrange(17, 30) =~= "sshd_config.d"@);
        lemma_find_sub_reaches(inc, "sshd_config.d"@, 0, 17);
        assert(includes_drop_ins(lines(c2)[k]));
    }
}

/// The new `authorized_keys`: only the new key when replacing or when there
/// is no file yet; otherwise the existing keys, a line break if they lack a
/// final one, then the new key.
pub open spec fn new_authorized_keys(pubkey: Seq<char>, existing: Option<Seq<char>>, replace: bool) -> Seq<
    char,
> {
    match existing {
        Some(e) => if replace {
            pubkey
        } else if e.len() > 0 && !ends_with(e, "\n"@) {
            e + "\n"@ + pubkey
        } else {
            e + pubkey
        },
        None => pubkey,
    }
}

/// The new `authorized_keys` (see [`new_authorized_keys`]).
pub fn authorized_keys_content(pubkey: &str, existing: Option<&str>, replace_existing: bool) -> (r:
    String)
    ensures
        r@ == new_authorized_keys(
            pubkey@,
            match existing {
                Some(e) => Some(e@),
                None => None,
            },
            replace_existing,
        ),
{
    match existing {
        Some(e) => {
            if replace_existing {
                pubkey.to_owned()
            } else {
                let mut v = chars_of(e);
                if v.len() > 0 && !ends_with_str(&v, "\n") {
                    append_str(&mut v, "\n");
                }
                append_str(&mut v, pubkey);
                string_of(&v)
            }
        },
        None => pubkey.to_owned(),
    }
}

/// The home directory of `username` from what `getent passwd` printed
/// (trimmed); an error when the lookup failed or printed nothing.
pub fn home_from_getent(success: bool, stdout: &str, username: &str) -> (r: Result<String, CliError>)
    ensures
        !success ==> (r matches Err(e) && e.message@ == "无法获取用户 "@ + username@ + " 的主目录"@),
        success && trim(stdout@).len() == 0 ==> (r matches Err(e) && e.message@ == "用户 "@
            + username@ + " 的主目录为空"@),
        success && trim(stdout@).len() > 0 ==> (r matches Ok(h) && h@ == trim(stdout@)),
{
    if !success {
        let mut m = chars_of("无法获取用户 ");
        append_str(&mut m, username);
        append_str(&mut m, " 的主目录");
        return Err(CliError::from_message(string_of(&m)));
    }
    let h = trim_chars(&chars_of(stdout));
    if h.len() == 0 {
        let mut m = chars_of("用户 ");
        append_str(&mut m, username);
        append_str(&mut m, " 的主目录为空");
        Err(CliError::from_message(string_of(&m)))
    } else {
        Ok(string_of(&h))
    }
}

/// `setup-ssh` runs only as root and only on Ubuntu (as `/etc/os-release`,
/// whose text is `os_release`, tells).
pub fn root_and_ubuntu(is_root: bool, os_release: &str) -> (r: Result<(), CliError>)
    ensures
        !is_root ==> (r matches Err(e) && e.message@ == "此命令必须以 root 权限运行"@),
        is_root && !contains(os_release@, "Ubuntu"@) ==> (r matches Err(e) && e.message@
            == "当前系统不是 Ubuntu，脚本仅在 Ubuntu 上测试过"@),
        is_root && contains(os_release@, "Ubuntu"@) ==> r is Ok,
{
    if !is_root {
        return Err(CliError::new("此命令必须以 root 权限运行"));
    }
    if !contains_str(&chars_of(os_release), "Ubuntu") {
        return Err(CliError::new("当前系统不是 Ubuntu，脚本仅在 Ubuntu 上测试过"));
    }
    Ok(())
}

/// `nix::unistd::Uid::effective().is_root()`: whether the process runs
/// with the effective user id 0. It reads the process's credentials, so
/// nothing is stated of the answer.
#[verifier::external_body]
fn effective_user_is_root() -> bool {
    nix::unistd::Uid::effective().is_root()
}

/// `setup-ssh` runs only as root and only on Ubuntu: this process's
/// effective user is checked, then `os_release`.
pub fn ensure_root_and_ubuntu(os_release: &str) -> (r: Result<(), CliError>)
    ensures
        r is Ok ==> contains(os_release@, "Ubuntu"@),
        r matches Err(e) ==> e.message@ == "此命令必须以 root 权限运行"@ || (!contains(
            os_release@,
            "Ubuntu"@,
        ) && e.message@ == "当前系统不是 Ubuntu，脚本仅在 Ubuntu 上测试过"@),
{
    root_and_ubuntu(effective_user_is_root(), os_release)
}

/// The shell commands that look for a listener on `port`, tried in order.
pub fn port_probe_commands(port: u16) -> (r: Vec<String>)
    ensures
        texts(r@) == seq![
            "ss -tuln | grep -w ':"@ + decimal(port as nat) + "'"@,
            "netstat -tuln | grep -w ':"@ + decimal(port as nat) + "'"@,
        ],
{
    let d = decimal_chars(port as u64);
    let mut a = chars_of("ss -tuln | grep -w ':");
    append(&mut a, &d);
    append_str(&mut a, "'");
    let mut b = chars_of("netstat -tuln | grep -w ':");
    append(&mut b, &d);
    append_str(&mut b, "'");
    let mut v: Vec<String> = Vec::new();
    v.push(string_of(&a));
    v.push(string_of(&b));
    assert(texts(v@) =~= seq![a@, b@]);
    v
}

/// The arguments that open `port` for TCP: for `ufw`, then for
/// `firewall-cmd`.
pub fn firewall_open_args(port: u16) -> (r: (Vec<String>, Vec<String>))
    ensures
        texts(r.0@) == seq!["allow"@, decimal(port as nat) + "/tcp"@],
        texts(r.1@) == seq!["--permanent"@, "--add-port="@ + decimal(port as nat) + "/tcp"@],
{
    let d = decimal_chars(port as u64);
    let mut spec = d.clone();
    append_str(&mut spec, "/tcp");
    let mut add = chars_of("--add-port=");
    append(&mut add, &d);
    append_str(&mut add, "/tcp");
    let mut ufw: Vec<String> = Vec::new();
    ufw.push("allow".to_owned());
    ufw.push(string_of(&spec));
    let mut fwd: Vec<String> = Vec::new();
    fwd.push("--permanent".to_owned());
    fwd.push(string_of(&add));
    assert(texts(ufw@) =~= seq!["allow"@, spec@]);
    assert(texts(fwd@) =~= seq!["--permanent"@, add@]);
    (ufw, fwd)
}

/// The warning when `sshd` rejected the new configuration and the old one
/// was put back.
pub open spec fn rollback_warning() -> Seq<char> {
    "校验或重载失败，已尝试自动恢复 SSH 配置。"@
}

/// The error when `sshd` rejected the new configuration and the old one was
/// put back: the report says it rolled back and warns, and the error
/// carries that warning.
pub fn apply_failure(err: CliError, report: &mut OperationReport) -> (r: CliError)
    ensures
        final(report).rolled_back == Some(true),
        texts(final(report).warnings@) == texts(old(report).warnings@).push(rollback_warning()),
        final(report).changed_files == old(report).changed_files,
        final(report).backups == old(report).backups,
        final(report).sensitive == old(report).sensitive,
        r.message == err.message,
        r.code == err.code,
        texts(r.warnings@) == seq![rollback_warning()],
{
    report.rolled_back = Some(true);
    let ghost before = texts(report.warnings@);
    report.warnings.push("校验或重载失败，已尝试自动恢复 SSH 配置。".to_owned());
    assert(texts(report.warnings@) =~= before.push(rollback_warning()));
    let mut ws: Vec<String> = Vec::new();
    ws.push("校验或重载失败，已尝试自动恢复 SSH 配置。".to_owned());
    assert(texts(ws@) =~= seq![rollback_warning()]);
    err.with_warnings(ws)
}


// ---------------------------------------------------------------------------
// Applying a plan
// ---------------------------------------------------------------------------

/// A public key to install for a user.
#[derive(Debug)]
pub struct KeyInstall {
    pub user: String,
    pub key_file: String,
    /// Whether the key replaces the user's other keys.
    pub replace: bool,
}

/// What applying a plan does besides backing up and writing the managed
/// configuration: the user to make sure of first, the key to install, the
/// keyword support to ask `sshd` about, the files reported as changed, and
/// the port to open in the firewall once `sshd` runs with the new
/// configuration.
#[derive(Debug)]
pub struct ApplySteps {
    pub ensure_user: Option<String>,
    pub install_key: Option<KeyInstall>,
    pub probe_keywords: bool,
    pub changed_files: Vec<String>,
    pub open_port: Option<u16>,
}

/// The managed `sshd` drop-in.
pub open spec fn managed_config_path() -> Seq<char> {
    "/etc/ssh/sshd_config.d/vps-cli.conf"@
}

/// What applying `plan` does (see [`ApplySteps`]): the plan's user is made
/// sure of; its key file is installed only when there is a user too,
/// replacing the other keys when the plan rotates them; keyword support is
/// asked about only when password logins are turned off; the managed drop-in
/// and the key file are reported as changed; the plan's port is opened.
pub fn apply_steps(plan: &SetupPlan) -> (r: ApplySteps)
    ensures
        opt_view(r.ensure_user) == opt_view(plan.user),
        (plan.pubkey_file is Some && plan.user is Some) <==> r.install_key is Some,
        r.install_key matches Some(k) ==> (plan.user matches Some(u) && k.user@ == u@)
            && (plan.pubkey_file matches Some(f) && k.key_file@ == f@) && k.replace
            == plan.rotate_authorized_key,
        r.probe_keywords == plan.disable_password_auth,
        texts(r.changed_files@) == seq![managed_config_path()] + match plan.pubkey_file {
            Some(f) => seq![f@],
            None => seq![],
        },
        r.open_port == plan.port,
{
    let install_key = match (&plan.pubkey_file, &plan.user) {
        (Some(f), Some(u)) => Some(
            KeyInstall { user: u.clone(), key_file: f.clone(), replace: plan.rotate_authorized_key },
        ),
        _ => None,
    };
    let mut changed: Vec<String> = Vec::new();
    changed.push("/etc/ssh/sshd_config.d/vps-cli.conf".to_owned());
    match &plan.pubkey_file {
        Some(f) => {
            changed.push(f.clone());
            assert(texts(changed@) =~= seq![managed_config_path(), f@]);
        },
        None => {
            assert(texts(changed@) =~= seq![managed_config_path()]);
        },
    }
    ApplySteps {
        ensure_user: match &plan.user {
            Some(u) => Some(u.clone()),
            None => None,
        },
        install_key,
        probe_keywords: plan.disable_password_auth,
        changed_files: changed,
        open_port: plan.port,
    }
}

/// One step of putting the SSH configuration back after a failed check.
#[derive(Debug)]
pub enum RestoreStep {
    /// Copy the backup back over the target.
    Restore { backup: String, target: String },
    /// Remove the managed drop-in, which did not exist before.
    RemoveManaged,
}

/// The contents of a [`RestoreStep`].
pub enum RestoreStepView {
    Restore { backup: Seq<char>, target: Seq<char> },
    RemoveManaged,
}

impl RestoreStep {
    pub open spec fn view(&self) -> RestoreStepView {
        match self {
            RestoreStep::Restore { backup, target } => RestoreStepView::Restore {
                backup: backup@,
                target: target@,
            },
            RestoreStep::RemoveManaged => RestoreStepView::RemoveManaged,
        }
    }
}

/// The views of a list of restore steps.
pub open spec fn restore_views(v: Seq<RestoreStep>) -> Seq<RestoreStepView> {
    v.map_values(|s: RestoreStep| s@)
}

/// How the configuration is put back when the new one fails its check: the
/// main configuration from its backup; the managed drop-in from its backup,
/// or removed when it did not exist before; the user's `authorized_keys`
/// from its backup when a key was installed over an existing file.
pub open spec fn restore_plan_spec(
    main_backup: Option<Seq<char>>,
    managed_backup: Option<Seq<char>>,
    keys_backup: Option<(Seq<char>, Seq<char>)>,
) -> Seq<RestoreStepView> {
    (match main_backup {
        Some(b) => seq![RestoreStepView::Restore { backup: b, target: "/etc/ssh/sshd_config"@ }],
        None => seq![],
    }) + (match managed_backup {
        Some(b) => seq![RestoreStepView::Restore { backup: b, target: managed_config_path() }],
        None => seq![RestoreStepView::RemoveManaged],
    }) + (match keys_backup {
        Some((b, t)) => seq![RestoreStepView::Restore { backup: b, target: t }],
        None => seq![],
    })
}

/// How the configuration is put back (see [`restore_plan_spec`]); the
/// backup of `authorized_keys` and its path are given together.
pub fn ssh_restore_steps(
    main_backup: &Option<String>,
    managed_backup: &Option<String>,
    keys_backup: &Option<(String, String)>,
) -> (r: Vec<RestoreStep>)
    ensures
        restore_views(r@) == restore_plan_spec(
            opt_view(*main_backup),
            opt_view(*managed_backup),
            match keys_backup {
                Some((b, t)) => Some((b@, t@)),
                None => None,
            },
        ),
{
    let mut v: Vec<RestoreStep> = Vec::new();
    match main_backup {
        Some(b) => v.push(
            RestoreStep::Restore { backup: b.clone(), target: "/etc/ssh/sshd_config".to_owned() },
        ),
        None => {},
    }
    let ghost first = restore_views(v@);
    match managed_backup {
        Some(b) => v.push(
            RestoreStep::Restore {
                backup: b.clone(),
                target: "/etc/ssh/sshd_config.d/vps-cli.conf".to_owned(),
            },
        ),
        None => v.push(RestoreStep::RemoveManaged),
    }
    let ghost second = restore_views(v@);
    assert(second =~= first.push(v@.last()@));
    match keys_backup {
        Some((b, t)) => {
            v.push(RestoreStep::Restore { backup: b.clone(), target: t.clone() });
            assert(restore_views(v@) =~= second.push(v@.last()@));
        },
        None => {},
    }
    assert(restore_views(v@) =~= restore_plan_spec(
        opt_view(*main_backup),
        opt_view(*managed_backup),
        match keys_backup {
            Some((b, t)) => Some((b@, t@)),
            None => None,
        },
    ));
    v
}

} // verus!
