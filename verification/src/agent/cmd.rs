//! Slash commands: their recognition, their replies, and the bookkeeping that
//! keeps one memory consolidation per session at a time.

use vstd::prelude::*;

use crate::channels::messages::InboundMessage;
use crate::text::{
    chars_of, decimal, decimal_chars, eq_ignore_ascii_case_chars, eq_ignore_ascii_case_spec,
    push_all, push_str, string_of, lowercase_spec, to_lowercase_str, trim_end_chars, trim_end_spec,
};

verus! {

/// A slash command: it runs on the message that triggered it and the session key,
/// and answers with a reply (`Ok`) or an error text (`Err`); both are shown to the user.
pub trait Command: Sized {
    fn run(self, msg: InboundMessage, session_key: String) -> Result<String, String>;
}

/// The text that `/help` answers with.
pub open spec fn help_text() -> Seq<char> {
    "🐈 nanobot commands:\n/new — Start a new conversation\n/stop — Stop current processing and cancel background tasks\n/restart — Restart the agent process\n/help — Show available commands"@
}

/// `/help`: lists the available commands.
pub struct HelpCmd;

impl Command for HelpCmd {
    fn run(self, _msg: InboundMessage, _session_key: String) -> (r: Result<String, String>)
        ensures
            r matches Ok(s) && s@ == help_text(),
    {
        Ok(String::from_str("🐈 nanobot commands:\n/new — Start a new conversation\n/stop — Stop current processing and cancel background tasks\n/restart — Restart the agent process\n/help — Show available commands"))
    }
}

/// `/dream`: answers with the pre-computed result of a memory consolidation run.
pub struct DreamCmd {
    /// The result text of the run.
    pub result: String,
}

impl Command for DreamCmd {
    fn run(self, _msg: InboundMessage, _session_key: String) -> (r: Result<String, String>)
        ensures
            r == Ok::<String, String>(self.result),
    {
        Ok(self.result)
    }
}

/// `/dream-log`: answers with the pre-computed memory change history.
pub struct DreamLogCmd {
    /// The history text.
    pub log_output: String,
}

impl Command for DreamLogCmd {
    fn run(self, _msg: InboundMessage, _session_key: String) -> (r: Result<String, String>)
        ensures
            r == Ok::<String, String>(self.log_output),
    {
        Ok(self.log_output)
    }
}

/// `/dream-restore`: answers with the pre-computed outcome of a memory restore.
pub struct DreamRestoreCmd {
    /// The outcome text.
    pub restore_output: String,
}

impl Command for DreamRestoreCmd {
    fn run(self, _msg: InboundMessage, _session_key: String) -> (r: Result<String, String>)
        ensures
            r == Ok::<String, String>(self.restore_output),
    {
        Ok(self.restore_output)
    }
}

/// `/restart`: the process restarts itself. Finding the executable and spawning the
/// new process are done by the caller, which reports each failure here.
pub struct RestartCmd;

impl RestartCmd {
    /// The reply, given the error (if any) of finding the current executable and,
    /// when that succeeded, the error (if any) of spawning the new process.
    pub fn reply(self, exe_error: Option<&str>, spawn_error: Option<&str>) -> (r: Result<String, String>)
        ensures
            match exe_error {
                Some(e) => r matches Err(m) && m@ == "Failed to get current executable: "@ + e@,
                None => match spawn_error {
                    Some(e) => r matches Err(m) && m@ == "Failed to spawn new process: "@ + e@,
                    None => r matches Ok(m) && m@ == "Restarting..."@,
                },
            },
    {
        proof {
            reveal_strlit("Failed to get current executable: ");
            reveal_strlit("Failed to spawn new process: ");
        }
        match exe_error {
            Some(e) => {
                let mut v = chars_of("Failed to get current executable: ");
                push_str(&mut v, e);
                Err(string_of(v.as_slice()))
            },
            None => match spawn_error {
                Some(e) => {
                    let mut v = chars_of("Failed to spawn new process: ");
                    push_str(&mut v, e);
                    Err(string_of(v.as_slice()))
                },
                None => Ok(String::from_str("Restarting...")),
            },
        }
    }
}

/// Token counts of an LLM call.
#[derive(Clone, Copy, Debug)]
pub struct Usage {
    pub input_tokens: u64,
    pub output_tokens: u64,
}

/// `/status`: version, model, token use of the last call, session size and uptime.
pub struct StatusCmd {
    /// Model name.
    pub model: String,
    /// Package version.
    pub version: String,
    /// Seconds since the agent started.
    pub uptime_secs: u64,
    /// Token use of the most recent LLM call.
    pub last_usage: Option<Usage>,
    /// Number of messages in the current session.
    pub session_message_count: usize,
}

/// Uptime as `Dd Hh Mm Ss`, leading zero units left out.
pub open spec fn uptime_spec(total: nat) -> Seq<char> {
    let days = total / 86400;
    let hours = total % 86400 / 3600;
    let mins = total % 3600 / 60;
    let secs = total % 60;
    if days > 0 {
        decimal(days) + "d "@ + decimal(hours) + "h "@ + decimal(mins) + "m "@ + decimal(secs) + "s"@
    } else if hours > 0 {
        decimal(hours) + "h "@ + decimal(mins) + "m "@ + decimal(secs) + "s"@
    } else if mins > 0 {
        decimal(mins) + "m "@ + decimal(secs) + "s"@
    } else {
        decimal(secs) + "s"@
    }
}

/// Formats an uptime in seconds, e.g. `1d 1h 1m 1s`, `1m 0s`, `59s`.
pub fn format_uptime(total_secs: u64) -> (r: String)
    ensures
        r@ == uptime_spec(total_secs as nat),
{
    proof {
        reveal_strlit("d ");
        reveal_strlit("h ");
        reveal_strlit("m ");
        reveal_strlit("s");
    }
    let days = total_secs / 86400;
    let hours = total_secs % 86400 / 3600;
    let mins = total_secs % 3600 / 60;
    let secs = total_secs % 60;
    let mut v: Vec<char> = Vec::new();
    if days > 0 {
        let d = decimal_chars(days);
        push_all(&mut v, d.as_slice());
        push_str(&mut v, "d ");
    }
    if days > 0 || hours > 0 {
        let h = decimal_chars(hours);
        push_all(&mut v, h.as_slice());
        push_str(&mut v, "h ");
    }
    if days > 0 || hours > 0 || mins > 0 {
        let m = decimal_chars(mins);
        push_all(&mut v, m.as_slice());
        push_str(&mut v, "m ");
    }
    let s = decimal_chars(secs);
    push_all(&mut v, s.as_slice());
    push_str(&mut v, "s");
    proof {
        let t = total_secs as nat;
        assert(days as nat == t / 86400);
        assert(hours as nat == t % 86400 / 3600);
        assert(mins as nat == t % 3600 / 60);
        assert(secs as nat == t % 60);
        assert(v@ =~= uptime_spec(t));
    }
    string_of(v.as_slice())
}

/// The token figures of a usage, `N/A` when unknown.
pub open spec fn tokens_spec(u: Option<Usage>) -> (Seq<char>, Seq<char>) {
    match u {
        Some(u) => (decimal(u.input_tokens as nat), decimal(u.output_tokens as nat)),
        None => ("N/A"@, "N/A"@),
    }
}

/// The text that `/status` answers with.
pub open spec fn status_spec(c: StatusCmd) -> Seq<char> {
    "🐈 nanobot v"@ + c.version@ + "\nModel: "@ + c.model@ + "\nTokens (last call): "@
        + tokens_spec(c.last_usage).0 + " in / "@ + tokens_spec(c.last_usage).1 + " out\nSession messages: "@
        + decimal(c.session_message_count as nat) + "\nUptime: "@ + uptime_spec(c.uptime_secs as nat)
}

impl Command for StatusCmd {
    fn run(self, _msg: InboundMessage, _session_key: String) -> (r: Result<String, String>)
        ensures
            r matches Ok(s) && s@ == status_spec(self),
    {
        proof {
            reveal_strlit("🐈 nanobot v");
            reveal_strlit("\nModel: ");
            reveal_strlit("\nTokens (last call): ");
            reveal_strlit(" in / ");
            reveal_strlit(" out\nSession messages: ");
            reveal_strlit("\nUptime: ");
            reveal_strlit("N/A");
        }
        let mut v = chars_of("🐈 nanobot v");
        push_str(&mut v, self.version.as_str());
        push_str(&mut v, "\nModel: ");
        push_str(&mut v, self.model.as_str());
        push_str(&mut v, "\nTokens (last call): ");
        match self.last_usage {
            Some(u) => {
                let a = decimal_chars(u.input_tokens);
                push_all(&mut v, a.as_slice());
                push_str(&mut v, " in / ");
                let b = decimal_chars(u.output_tokens);
                push_all(&mut v, b.as_slice());
            },
            None => {
                push_str(&mut v, "N/A");
                push_str(&mut v, " in / ");
                push_str(&mut v, "N/A");
            },
        }
        push_str(&mut v, " out\nSession messages: ");
        let c = decimal_chars(self.session_message_count as u64);
        push_all(&mut v, c.as_slice());
        push_str(&mut v, "\nUptime: ");
        let up = format_uptime(self.uptime_secs);
        push_str(&mut v, up.as_str());
        Ok(string_of(v.as_slice()))
    }
}

/// The reply to `/stop` after `cancelled` background tasks were cancelled.
pub open spec fn stop_reply_spec(cancelled: nat) -> Seq<char> {
    if cancelled > 0 {
        "Stopped. Cancelled "@ + decimal(cancelled) + " background task(s)."@
    } else {
        "Stopped."@
    }
}

/// The reply to `/stop`, given how many background tasks it cancelled.
pub fn stop_reply(cancelled: usize) -> (r: String)
    ensures
        r@ == stop_reply_spec(cancelled as nat),
{
    proof {
        reveal_strlit("Stopped. Cancelled ");
        reveal_strlit(" background task(s).");
    }
    if cancelled > 0 {
        let mut v = chars_of("Stopped. Cancelled ");
        let d = decimal_chars(cancelled as u64);
        push_all(&mut v, d.as_slice());
        push_str(&mut v, " background task(s).");
        string_of(v.as_slice())
    } else {
        String::from_str("Stopped.")
    }
}

/// Whether a message is the `/stop` command: `/stop` in any ASCII case, trailing
/// white space ignored.
pub fn is_stop_cmd(content: &str) -> (b: bool)
    ensures
        b == eq_ignore_ascii_case_spec(trim_end_spec(content@), "/stop"@),
{
    let c = chars_of(content);
    let t = trim_end_chars(c.as_slice());
    let stop = chars_of("/stop");
    eq_ignore_ascii_case_chars(t.as_slice(), stop.as_slice())
}

} // verus!

verus! {

/// A recognized slash command.
#[derive(Debug)]
pub enum CommandKind {
    Help,
    New,
    Stop,
    Restart,
    Status,
    /// `/dream`: a memory consolidation run, answered with its result (`DreamCmd`).
    Dream,
    /// Any other name (lower-cased, trailing white space removed).
    Unsupported(String),
}

/// The command name of a message that starts with `/`: the rest, trailing white
/// space removed, lower-cased.
pub open spec fn command_name(content: Seq<char>) -> Seq<char> {
    lowercase_spec(trim_end_spec(content.drop_first()))
}

/// Which command a name selects.
pub open spec fn command_kind_spec(name: Seq<char>) -> CommandKind {
    if name == "help"@ {
        CommandKind::Help
    } else if name == "new"@ {
        CommandKind::New
    } else if name == "stop"@ {
        CommandKind::Stop
    } else if name == "restart"@ {
        CommandKind::Restart
    } else if name == "status"@ {
        CommandKind::Status
    } else if name == "dream"@ {
        CommandKind::Dream
    } else {
        CommandKind::Unsupported(arbitrary())
    }
}

/// Whether two command kinds agree (an unsupported name compared by its text).
pub open spec fn kind_matches(k: CommandKind, name: Seq<char>) -> bool {
    match command_kind_spec(name) {
        CommandKind::Unsupported(_) => k matches CommandKind::Unsupported(s) && s@ == name,
        CommandKind::Help => k is Help,
        CommandKind::New => k is New,
        CommandKind::Stop => k is Stop,
        CommandKind::Restart => k is Restart,
        CommandKind::Status => k is Status,
        CommandKind::Dream => k is Dream,
    }
}

fn string_eq(a: &String, b: &str) -> (r: bool)
    ensures
        r == (a@ == b@),
{
    let bs = String::from_str(b);
    *a == bs
}

/// Recognizes a slash command. A message not starting with `/` is no command (`None`).
pub fn parse_command(content: &str) -> (r: Option<CommandKind>)
    ensures
        content@.len() > 0 && content@[0] == '/' ==> (r matches Some(k) && kind_matches(k, command_name(content@))),
        !(content@.len() > 0 && content@[0] == '/') ==> r is None,
        content@.len() > 0 && content@[0] == '/' && command_name(content@) == "dream"@ ==> r matches Some(
            CommandKind::Dream,
        ),
{
    let cs = chars_of(content);
    if cs.len() == 0 || cs[0] != '/' {
        return None;
    }
    let rest = crate::text::slice_vec(cs.as_slice(), 1, cs.len());
    assert(rest@ =~= content@.drop_first());
    let trimmed = trim_end_chars(rest.as_slice());
    let t = string_of(trimmed.as_slice());
    let name = to_lowercase_str(t.as_str());
    proof {
        reveal_strlit("help");
        reveal_strlit("new");
        reveal_strlit("stop");
        reveal_strlit("restart");
        reveal_strlit("status");
        reveal_strlit("dream");
        assert("dream"@.len() == 5 && "help"@.len() == 4 && "new"@.len() == 3 && "stop"@.len() == 4);
        assert("restart"@.len() == 7 && "status"@.len() == 6);
    }
    if string_eq(&name, "help") {
        Some(CommandKind::Help)
    } else if string_eq(&name, "new") {
        Some(CommandKind::New)
    } else if string_eq(&name, "stop") {
        Some(CommandKind::Stop)
    } else if string_eq(&name, "restart") {
        Some(CommandKind::Restart)
    } else if string_eq(&name, "status") {
        Some(CommandKind::Status)
    } else if string_eq(&name, "dream") {
        Some(CommandKind::Dream)
    } else {
        Some(CommandKind::Unsupported(name))
    }
}

/// The reply to an unknown command `name`.
pub open spec fn unsupported_reply_spec(name: Seq<char>) -> Seq<char> {
    "❌ Unsupported command: /"@ + name + "\nTry /help for available commands"@
}

/// The reply to an unknown command.
pub fn unsupported_command_reply(name: &str) -> (r: String)
    ensures
        r@ == unsupported_reply_spec(name@),
{
    let mut v = chars_of("❌ Unsupported command: /");
    push_str(&mut v, name);
    push_str(&mut v, "\nTry /help for available commands");
    string_of(v.as_slice())
}

/// `k` is the view of one of `s`.
pub open spec fn keys_contain(s: Seq<String>, k: Seq<char>) -> bool {
    exists|j: int| 0 <= j < s.len() && s[j]@ == k
}

/// One consolidation per session: while a session's consolidation runs, starting
/// another for it is refused; other sessions are not affected; and finishing it
/// leaves the set as it was before it started.
pub proof fn law_one_consolidation_per_session(running: Set<Seq<char>>, key: Seq<char>, other: Seq<char>)
    requires
        !running.contains(key),
        other != key,
    ensures
        running.insert(key).contains(key),
        running.insert(key).contains(other) == running.contains(other),
        running.insert(key).remove(key) == running,
{
    assert(running.insert(key).remove(key) =~= running);
}

/// The sessions whose memory is being consolidated; at most one consolidation
/// runs per session. Session keys are text, and its `String` keys
/// are kept in a `Vec` rather than std's `HashMap`/`HashSet` or `BTreeMap`/`BTreeSet`:
/// vstd specifies those only for keys whose hashing or ordering it models
/// (`obeys_key_model`, `key_obeys_cmp_spec`), which it establishes for integers and
/// `bool` but not for `String`, so nothing could be proved of them here.
pub struct ConsolidatingSet {
    keys: Vec<String>,
}

impl View for ConsolidatingSet {
    type V = Set<Seq<char>>;

    closed spec fn view(&self) -> Set<Seq<char>> {
        Set::new(|k: Seq<char>| keys_contain(self.keys@, k))
    }
}

impl ConsolidatingSet {
    /// No session is being consolidated.
    pub fn new() -> (s: Self)
        ensures
            s@ == Set::<Seq<char>>::empty(),
    {
        let s = ConsolidatingSet { keys: Vec::new() };
        assert(s@ =~= Set::<Seq<char>>::empty());
        s
    }

    /// Whether `key` is being consolidated.
    pub fn contains(&self, key: &str) -> (b: bool)
        ensures
            b == self@.contains(key@),
    {
        let mut i: usize = 0;
        while i < self.keys.len()
            invariant
                i <= self.keys@.len(),
                forall|j: int| 0 <= j < i ==> self.keys@[j]@ != key@,
            decreases self.keys@.len() - i,
        {
            if string_eq(&self.keys[i], key) {
                return true;
            }
            i = i + 1;
        }
        false
    }

    /// Marks `key` as being consolidated. `false` when it already was: then the
    /// caller must not start another consolidation.
    pub fn try_begin(&mut self, key: &str) -> (started: bool)
        ensures
            started == !old(self)@.contains(key@),
            final(self)@ == old(self)@.insert(key@),
    {
        if self.contains(key) {
            assert(self@.insert(key@) =~= self@);
            false
        } else {
            self.keys.push(String::from_str(key));
            proof {
                let o = old(self).keys@;
                let n = self.keys@;
                assert forall|k: Seq<char>| #[trigger] keys_contain(n, k) == (keys_contain(o, k) || k == key@) by {
                    if keys_contain(o, k) {
                        let i = choose|i: int| 0 <= i < o.len() && o[i]@ == k;
                        assert(n[i] == o[i]);
                    }
                    if k == key@ {
                        assert(n[n.len() - 1]@ == key@);
                    }
                    if keys_contain(n, k) {
                        let i = choose|i: int| 0 <= i < n.len() && n[i]@ == k;
                        if i < o.len() {
                            assert(n[i] == o[i]);
                        }
                    }
                }
                assert(self@ =~= old(self)@.insert(key@));
            }
            true
        }
    }

    /// Marks `key` as no longer being consolidated.
    pub fn finish(&mut self, key: &str)
        ensures
            final(self)@ == old(self)@.remove(key@),
    {
        let mut kept: Vec<String> = Vec::new();
        let mut i: usize = 0;
        while i < self.keys.len()
            invariant
                i <= self.keys@.len(),
                forall|k: Seq<char>| #[trigger] keys_contain(kept@, k) == (k != key@ && keys_contain(self.keys@.take(i as int), k)),
            decreases self.keys@.len() - i,
        {
            let ghost before = kept@;
            let ghost pre = self.keys@.take(i as int);
            let ghost post = self.keys@.take(i + 1);
            assert(post =~= pre.push(self.keys@[i as int]));
            if !string_eq(&self.keys[i], key) {
                kept.push(self.keys[i].clone());
                proof {
                    assert forall|k: Seq<char>| #[trigger] keys_contain(kept@, k) == (k != key@ && keys_contain(post, k)) by {
                        if keys_contain(kept@, k) {
                            let j = choose|j: int| 0 <= j < kept@.len() && kept@[j]@ == k;
                            if j < before.len() {
                                assert(kept@[j] == before[j]);
                                assert(keys_contain(before, k));
                                let m = choose|m: int| 0 <= m < pre.len() && pre[m]@ == k;
                                assert(post[m] == pre[m]);
                            } else {
                                assert(post[i as int] == self.keys@[i as int]);
                            }
                        }
                        if k != key@ && keys_contain(post, k) {
                            let j = choose|j: int| 0 <= j < post.len() && post[j]@ == k;
                            if j < i {
                                assert(pre[j] == post[j]);
                                assert(keys_contain(pre, k));
                                assert(keys_contain(before, k));
                                let m = choose|m: int| 0 <= m < before.len() && before[m]@ == k;
                                assert(kept@[m] == before[m]);
                            } else {
                                assert(kept@[kept@.len() - 1]@ == k);
                            }
                        }
                    }
                }
            } else {
                proof {
                    assert forall|k: Seq<char>| #[trigger] keys_contain(kept@, k) == (k != key@ && keys_contain(post, k)) by {
                        if k != key@ && keys_contain(post, k) {
                            let j = choose|j: int| 0 <= j < post.len() && post[j]@ == k;
                            assert(j < i);
                            assert(pre[j] == post[j]);
                            assert(keys_contain(pre, k));
                        }
                        if keys_contain(pre, k) {
                            let j = choose|j: int| 0 <= j < pre.len() && pre[j]@ == k;
                            assert(post[j] == pre[j]);
                        }
                    }
                }
            }
            i = i + 1;
        }
        assert(self.keys@.take(self.keys@.len() as int) =~= self.keys@);
        self.keys = kept;
        assert(self@ =~= old(self)@.remove(key@));
    }
}

/// The reply to `/new` when the session is already being consolidated.
pub open spec fn new_busy_reply() -> Seq<char> {
    "Session is already being consolidated. Please try again later."@
}

/// The reply to `/new` when the session is already being consolidated.
pub fn new_cmd_busy() -> (r: Result<String, String>)
    ensures
        r matches Err(m) && m@ == new_busy_reply(),
{
    Err(String::from_str("Session is already being consolidated. Please try again later."))
}

/// The reply to `/new`: `archive_error` is the error of archiving the session's memory
/// (the session is then not cleared); `save_error` the error of saving the cleared session.
pub fn new_cmd_outcome(archive_error: Option<&str>, save_error: Option<&str>) -> (r: Result<String, String>)
    ensures
        match (archive_error, save_error) {
            (Some(e), _) => r matches Err(m) && m@ == "Memory archival failed, session not cleared. Please try again: "@ + e@,
            (None, Some(e)) => r matches Err(m) && m@ == "Failed to save session: "@ + e@,
            (None, None) => r matches Ok(m) && m@ == "New session started."@,
        },
{
    proof {
        reveal_strlit("Memory archival failed, session not cleared. Please try again: ");
        reveal_strlit("Failed to save session: ");
    }
    match archive_error {
        Some(e) => {
            let mut v = chars_of("Memory archival failed, session not cleared. Please try again: ");
            push_str(&mut v, e);
            Err(string_of(v.as_slice()))
        },
        None => match save_error {
            Some(e) => {
                let mut v = chars_of("Failed to save session: ");
                push_str(&mut v, e);
                Err(string_of(v.as_slice()))
            },
            None => Ok(String::from_str("New session started.")),
        },
    }
}

} // verus!
