//! Central configuration: the settings records, their documented defaults,
//! environment overrides and the MQTT topic naming scheme.
use vstd::prelude::*;
use crate::text::{chars_of, push_str};

verus! {

/// MQTT connection settings.
pub struct MqttConfig {
    pub host: String,
    pub port: u16,
    pub username: String,
    pub password: String,
    pub base_topic: String,
    pub client_id_prefix: String,
}

/// Redis settings.
pub struct RedisConfig {
    pub url: String,
    pub dedupe_ttl_seconds: u64,
}

/// The dedupe time-to-live when the file names none: one day.
pub fn default_dedupe_ttl() -> (res: u64)
    ensures
        res == 86400,
{
    86400
}

/// Executor (opencode CLI) settings.
pub struct OpencodeConfig {
    pub command: String,
    pub default_args: Vec<String>,
    pub workdir: String,
    pub timeout_seconds: u64,
    pub max_output_kb: u64,
}

/// The executor command when the file names none.
pub fn default_opencode_command() -> (res: String)
    ensures
        res@ == "opencode"@,
{
    String::from_str("opencode")
}

/// The working directory when the file names none.
pub fn default_workdir() -> (res: String)
    ensures
        res@ == "./"@,
{
    String::from_str("./")
}

/// The executor timeout when the file names none: 30 minutes.
pub fn default_timeout() -> (res: u64)
    ensures
        res == 1800,
{
    1800
}

/// The output cap when the file names none: 2 MiB.
pub fn default_max_output_kb() -> (res: u64)
    ensures
        res == 2048,
{
    2048
}

/// Agent process settings.
pub struct AgentsConfig {
    pub log_level: String,
}

/// The log level when the file names none.
pub fn default_log_level() -> (res: String)
    ensures
        res@ == "info"@,
{
    String::from_str("info")
}

/// Language-model settings (the sampling temperature is kept by the runtime).
pub struct LlmConfig {
    pub model: String,
    pub max_tokens: usize,
    pub base_url: String,
}

/// The model when the file names none.
pub fn default_llm_model() -> (res: String)
    ensures
        res@ == "minimax-m2.5:cloud"@,
{
    String::from_str("minimax-m2.5:cloud")
}

/// The token limit when the file names none.
pub fn default_llm_max_tokens() -> (res: usize)
    ensures
        res == 2048,
{
    2048
}

/// The model server when the file names none.
pub fn default_llm_base_url() -> (res: String)
    ensures
        res@ == "http://localhost:11434"@,
{
    String::from_str("http://localhost:11434")
}

/// Prompt settings of the product-owner agent.
pub struct PromptsConfig {
    pub po_system_prompt: String,
    pub max_llm_rounds: u32,
}

/// The product-owner system prompt when the file names none.
pub fn default_po_system_prompt() -> (res: String)
    ensures
        res@ == "You are a Product Owner agent. Analyze the story and respond with your thoughts."@,
{
    String::from_str("You are a Product Owner agent. Analyze the story and respond with your thoughts.")
}

/// The number of model rounds when the file names none.
pub fn default_max_llm_rounds() -> (res: u32)
    ensures
        res == 10,
{
    10
}

/// The whole configuration.
pub struct Config {
    pub mqtt: MqttConfig,
    pub redis: RedisConfig,
    pub opencode: OpencodeConfig,
    pub agents: AgentsConfig,
    pub llm: LlmConfig,
    pub prompts: PromptsConfig,
}

impl Default for Config {
    /// Every text empty, every number zero and every list empty.
    fn default() -> (res: Config)
        ensures
            res.mqtt.host@.len() == 0 && res.mqtt.port == 0 && res.mqtt.username@.len() == 0,
            res.mqtt.password@.len() == 0 && res.mqtt.base_topic@.len() == 0,
            res.mqtt.client_id_prefix@.len() == 0,
            res.redis.url@.len() == 0 && res.redis.dedupe_ttl_seconds == 0,
            res.opencode.command@.len() == 0 && res.opencode.default_args@.len() == 0,
            res.opencode.workdir@.len() == 0 && res.opencode.timeout_seconds == 0,
            res.opencode.max_output_kb == 0,
            res.agents.log_level@.len() == 0,
            res.llm.model@.len() == 0 && res.llm.max_tokens == 0 && res.llm.base_url@.len() == 0,
            res.prompts.po_system_prompt@.len() == 0 && res.prompts.max_llm_rounds == 0,
    {
        Config {
            mqtt: MqttConfig {
                host: String::new(),
                port: 0,
                username: String::new(),
                password: String::new(),
                base_topic: String::new(),
                client_id_prefix: String::new(),
            },
            redis: RedisConfig { url: String::new(), dedupe_ttl_seconds: 0 },
            opencode: OpencodeConfig {
                command: String::new(),
                default_args: Vec::new(),
                workdir: String::new(),
                timeout_seconds: 0,
                max_output_kb: 0,
            },
            agents: AgentsConfig { log_level: String::new() },
            llm: LlmConfig { model: String::new(), max_tokens: 0, base_url: String::new() },
            prompts: PromptsConfig { po_system_prompt: String::new(), max_llm_rounds: 0 },
        }
    }
}

// ---------------------------------------------------------------- number parsing

/// `c` is an ASCII decimal digit.
pub open spec fn is_digit(c: char) -> bool {
    '0' <= c && c <= '9'
}

/// The value of a digit character.
pub open spec fn digit_value(c: char) -> nat {
    ((c as u32) - ('0' as u32)) as nat
}

/// The value of a string of decimal digits.
pub open spec fn digits_value(s: Seq<char>) -> nat
    decreases s.len(),
{
    if s.len() == 0 { 0 } else { digits_value(s.drop_last()) * 10 + digit_value(s.last()) }
}

/// What `str::parse` gives for an unsigned integer type whose largest value is
/// `max`: an optional `+`, then one or more decimal digits whose value is at
/// most `max`; anything else is an error.
pub open spec fn parse_unsigned(s: Seq<char>, max: nat) -> Option<nat> {
    let d = unsigned_digits(s);
    if d.len() > 0 && all_digits(d) && digits_value(d) <= max {
        Some(digits_value(d))
    } else {
        None
    }
}

/// The text after an optional leading `+`.
pub open spec fn unsigned_digits(s: Seq<char>) -> Seq<char> {
    if s.len() > 0 && s[0] == '+' { s.drop_first() } else { s }
}

/// Every character is a decimal digit.
pub open spec fn all_digits(d: Seq<char>) -> bool {
    forall|i: int| 0 <= i < d.len() ==> is_digit(#[trigger] d[i])
}

/// Parses an unsigned decimal number no larger than `max` from characters.
pub fn parse_bounded_chars(cs: &Vec<char>, max: u64) -> (res: Option<u64>)
    ensures
        match parse_unsigned(cs@, max as nat) {
            Some(v) => res == Some(v as u64),
            None => res is None,
        },
{
    let start: usize = if cs.len() > 0 && cs[0] == '+' { 1 } else { 0 };
    let ghost d = unsigned_digits(cs@);
    assert(d =~= cs@.subrange(start as int, cs@.len() as int));
    if start >= cs.len() {
        return None;
    }
    let mut value: u64 = 0;
    let mut i: usize = start;
    while i < cs.len()
        invariant
            start <= i <= cs@.len(),
            d == cs@.subrange(start as int, cs@.len() as int),
            d == unsigned_digits(cs@),
            forall|j: int| start <= j < i ==> is_digit(#[trigger] cs@[j]),
            value as nat == digits_value(cs@.subrange(start as int, i as int)),
            value <= max,
        decreases cs.len() - i,
    {
        let c = cs[i];
        assert(cs@.subrange(start as int, i + 1).drop_last() =~= cs@.subrange(start as int, i as int));
        if !('0' <= c && c <= '9') {
            proof {
                assert(d[i - start] == c);
                assert(!is_digit(d[i - start]));
                assert(!all_digits(d));
                assert(parse_unsigned(cs@, max as nat) is None);
            }
            return None;
        }
        let dv: u64 = ((c as u32) - ('0' as u32)) as u64;
        proof {
            assert(digits_value(cs@.subrange(start as int, i + 1)) == value * 10 + dv);
            assert(d.take(i - start + 1) =~= cs@.subrange(start as int, i + 1));
        }
        if dv > max || value > (max - dv) / 10 {
            proof {
                assert(value * 10 + dv > max) by (nonlinear_arith)
                    requires dv > max || value > (max - dv) / 10, dv <= 9;
                if all_digits(d) {
                    lemma_digits_prefix_monotone(d, (i - start + 1) as nat);
                    assert(digits_value(d) > max);
                }
                assert(parse_unsigned(cs@, max as nat) is None);
            }
            return None;
        }
        proof {
            assert(value * 10 + dv <= max) by (nonlinear_arith)
                requires value <= (max - dv) / 10, dv <= max;
        }
        value = value * 10 + dv;
        i += 1;
    }
    assert(cs@.subrange(start as int, i as int) =~= d);
    Some(value)
}

/// Parses an unsigned decimal number no larger than `max` (`str::parse`).
pub fn parse_bounded(s: &str, max: u64) -> (res: Option<u64>)
    ensures
        match parse_unsigned(s@, max as nat) {
            Some(v) => res == Some(v as u64),
            None => res is None,
        },
{
    let cs = chars_of(s);
    parse_bounded_chars(&cs, max)
}

/// A longer run of digits is worth at least as much as its prefix.
proof fn lemma_digits_prefix_monotone(d: Seq<char>, n: nat)
    requires
        n <= d.len(),
        all_digits(d),
    ensures
        digits_value(d.take(n as int)) <= digits_value(d),
    decreases d.len() - n,
{
    if n < d.len() {
        lemma_digits_prefix_monotone(d, n + 1);
        assert(d.take(n as int + 1).drop_last() =~= d.take(n as int));
        assert(digits_value(d.take(n as int + 1)) == digits_value(d.take(n as int)) * 10 + digit_value(d[n as int]));
    } else {
        assert(d.take(n as int) =~= d);
    }
}

// ---------------------------------------------------------------- environment overrides

/// The configuration overrides read from the environment, one per variable
/// (`AGILE_INC_MQTT_HOST`, `AGILE_INC_MQTT_PORT`, `AGILE_INC_MQTT_BASE_TOPIC`,
/// `AGILE_INC_REDIS_URL`, `AGILE_INC_REDIS_DEDUPE_TTL`,
/// `AGILE_INC_OPENCODE_COMMAND`, `AGILE_INC_OPENCODE_TIMEOUT`,
/// `AGILE_INC_AGENTS_LOG_LEVEL`); `None` where the variable is unset.
pub struct EnvOverrides {
    pub mqtt_host: Option<String>,
    pub mqtt_port: Option<String>,
    pub mqtt_base_topic: Option<String>,
    pub redis_url: Option<String>,
    pub redis_dedupe_ttl: Option<String>,
    pub opencode_command: Option<String>,
    pub opencode_timeout: Option<String>,
    pub agents_log_level: Option<String>,
}

/// A text setting after an override: the override where one is set.
pub open spec fn overridden_text(old: Seq<char>, o: Option<String>) -> Seq<char> {
    match o {
        Some(v) => v@,
        None => old,
    }
}

/// A number setting after an override: the parsed override where one is set
/// and parses, else the old value.
pub open spec fn overridden_number(old: nat, o: Option<String>, max: nat) -> nat {
    match o {
        Some(v) => match parse_unsigned(v@, max) {
            Some(n) => n,
            None => old,
        },
        None => old,
    }
}

fn override_text(field: &mut String, o: &Option<String>)
    ensures
        final(field)@ == overridden_text(old(field)@, *o),
{
    match o {
        Some(v) => {
            *field = v.clone();
        },
        None => {},
    }
}

fn override_number(old: u64, o: &Option<String>, max: u64) -> (res: u64)
    requires
        old <= max,
    ensures
        res as nat == overridden_number(old as nat, *o, max as nat),
        res <= max,
{
    match o {
        Some(v) => match parse_bounded(v.as_str(), max) {
            Some(n) => n,
            None => old,
        },
        None => old,
    }
}

impl Config {
    /// Applies the environment overrides; a number that does not parse keeps the
    /// value from the file. Everything the overrides do not name is unchanged.
    pub fn apply_env_overrides(&mut self, env: &EnvOverrides)
        ensures
            final(self).mqtt.host@ == overridden_text(old(self).mqtt.host@, env.mqtt_host),
            final(self).mqtt.port as nat == overridden_number(old(self).mqtt.port as nat, env.mqtt_port, 65535),
            final(self).mqtt.base_topic@ == overridden_text(old(self).mqtt.base_topic@, env.mqtt_base_topic),
            final(self).mqtt.username == old(self).mqtt.username,
            final(self).mqtt.password == old(self).mqtt.password,
            final(self).mqtt.client_id_prefix == old(self).mqtt.client_id_prefix,
            final(self).redis.url@ == overridden_text(old(self).redis.url@, env.redis_url),
            final(self).redis.dedupe_ttl_seconds as nat == overridden_number(
                old(self).redis.dedupe_ttl_seconds as nat, env.redis_dedupe_ttl, 0xffff_ffff_ffff_ffff),
            final(self).opencode.command@ == overridden_text(old(self).opencode.command@, env.opencode_command),
            final(self).opencode.timeout_seconds as nat == overridden_number(
                old(self).opencode.timeout_seconds as nat, env.opencode_timeout, 0xffff_ffff_ffff_ffff),
            final(self).opencode.default_args == old(self).opencode.default_args,
            final(self).opencode.workdir == old(self).opencode.workdir,
            final(self).opencode.max_output_kb == old(self).opencode.max_output_kb,
            final(self).agents.log_level@ == overridden_text(old(self).agents.log_level@, env.agents_log_level),
            final(self).llm == old(self).llm,
            final(self).prompts == old(self).prompts,
    {
        override_text(&mut self.mqtt.host, &env.mqtt_host);
        self.mqtt.port = override_number(self.mqtt.port as u64, &env.mqtt_port, 65535) as u16;
        override_text(&mut self.mqtt.base_topic, &env.mqtt_base_topic);
        override_text(&mut self.redis.url, &env.redis_url);
        self.redis.dedupe_ttl_seconds = override_number(
            self.redis.dedupe_ttl_seconds, &env.redis_dedupe_ttl, 0xffff_ffff_ffff_ffff);
        override_text(&mut self.opencode.command, &env.opencode_command);
        self.opencode.timeout_seconds = override_number(
            self.opencode.timeout_seconds, &env.opencode_timeout, 0xffff_ffff_ffff_ffff);
        override_text(&mut self.agents.log_level, &env.agents_log_level);
    }
}

// ---------------------------------------------------------------- topics

/// Builds the MQTT topic names under one base topic.
pub struct TopicBuilder {
    base: String,
}

/// The inbox topic of `role` under `base`.
pub open spec fn role_inbox_topic(base: Seq<char>, role: Seq<char>) -> Seq<char> {
    base + "/role/"@ + role + "/inbox"@
}

impl TopicBuilder {
    /// The base topic.
    pub closed spec fn base(&self) -> Seq<char> {
        self.base@
    }

    /// A builder for topics under `base_topic`.
    pub fn new(base_topic: &str) -> (res: TopicBuilder)
        ensures
            res.base() == base_topic@,
    {
        TopicBuilder { base: String::from_str(base_topic) }
    }

    /// `{base}/role/{role}/inbox`.
    pub fn role_inbox(&self, role: &str) -> (res: String)
        ensures
            res@ == role_inbox_topic(self.base(), role@),
    {
        let mut t = self.base.clone();
        push_str(&mut t, "/role/");
        push_str(&mut t, role);
        push_str(&mut t, "/inbox");
        t
    }

    /// `{base}/events`.
    pub fn events(&self) -> (res: String)
        ensures
            res@ == self.base() + "/events"@,
    {
        let mut t = self.base.clone();
        push_str(&mut t, "/events");
        t
    }

    /// `{base}/system/alerts`.
    pub fn system_alerts(&self) -> (res: String)
        ensures
            res@ == self.base() + "/system/alerts"@,
    {
        let mut t = self.base.clone();
        push_str(&mut t, "/system/alerts");
        t
    }

    /// `{base}/policy/changed`.
    pub fn policy_changed(&self) -> (res: String)
        ensures
            res@ == self.base() + "/policy/changed"@,
    {
        let mut t = self.base.clone();
        push_str(&mut t, "/policy/changed");
        t
    }

    /// The topic a role listens on: its inbox.
    pub fn role_topic(&self, role: &str) -> (res: String)
        ensures
            res@ == role_inbox_topic(self.base(), role@),
    {
        self.role_inbox(role)
    }
}

/// Different roles have different inboxes: the inbox topic determines the role.
pub proof fn lemma_role_inbox_injective(base: Seq<char>, a: Seq<char>, b: Seq<char>)
    requires
        role_inbox_topic(base, a) == role_inbox_topic(base, b),
    ensures
        a == b,
{
    let ta = role_inbox_topic(base, a);
    let pre = base + "/role/"@;
    let suf = "/inbox"@;
    assert(ta.len() == pre.len() + a.len() + suf.len());
    assert(role_inbox_topic(base, b).len() == pre.len() + b.len() + suf.len());
    assert(a =~= ta.subrange(pre.len() as int, (pre.len() + a.len()) as int));
    assert(b =~= role_inbox_topic(base, b).subrange(pre.len() as int, (pre.len() + b.len()) as int));
}

} // verus!
