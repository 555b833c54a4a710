use vstd::prelude::*;
use crate::num::{parse_bool, parse_bool_spec, parse_unsigned, parse_unsigned_spec};
use crate::text::{strs, to_chars, chars_eq, from_chars, extend_str, trim_chars, trim, lowercase, to_lowercase};
use crate::hosts::normalize_domain;

verus! {

/// When the block applies: from `start` o'clock up to `end` o'clock (across midnight
/// when `end` is not after `start`), and on weekends only if `block_weekends`.
#[derive(Debug, Clone)]
pub struct ScheduleConfig {
    pub start: u8,
    pub end: u8,
    pub block_weekends: bool,
}

/// The domains to block.
#[derive(Debug, Clone)]
pub struct DomainsConfig {
    pub list: Vec<String>,
}

/// Where and how the block is written.
#[derive(Debug, Clone)]
pub struct HostsConfig {
    pub file: String,
    pub marker: String,
    pub redirect_ips: Vec<String>,
}

/// Where the daemon logs, and from which level.
#[derive(Debug, Clone)]
pub struct LoggingConfig {
    pub file: String,
    pub level: String,
}

/// The system configuration.
#[derive(Debug, Clone)]
pub struct Config {
    pub schedule: ScheduleConfig,
    pub domains: DomainsConfig,
    pub hosts: HostsConfig,
    pub logging: LoggingConfig,
}

/// The outcome of a change to the site list.
#[derive(Debug, Clone, PartialEq, Eq)]
pub enum SiteMutation {
    Added(String),
    AlreadyPresent(String),
    Removed(String),
    NotFound(String),
}

/// The domains of the default configuration.
pub open spec fn default_domains() -> Seq<Seq<char>> {
    seq!["tiktok.com"@, "instagram.com"@, "pornhub.com"@, "youtube.com"@]
}

/// The default configuration: block from 9 to 18 on weekdays, the default domains,
/// `/etc/hosts` with the PARAMO marker redirected to `127.0.0.1` and `::1`, and
/// logging at `info` to `/var/log/paramo.log`.
pub open spec fn is_default_config(c: Config) -> bool {
    &&& c.schedule.start == 9
    &&& c.schedule.end == 18
    &&& !c.schedule.block_weekends
    &&& strs(c.domains.list@) == default_domains()
    &&& c.hosts.file@ == "/etc/hosts"@
    &&& c.hosts.marker@ == "# --- PARAMO BLOCK ---"@
    &&& strs(c.hosts.redirect_ips@) == seq!["127.0.0.1"@, "::1"@]
    &&& c.logging.file@ == "/var/log/paramo.log"@
    &&& c.logging.level@ == "info"@
}

fn owned(s: &str) -> (r: String)
    ensures
        r@ == s@,
{
    String::from_str(s)
}

impl Default for Config {
    fn default() -> (r: Self)
        ensures
            is_default_config(r),
    {
        let mut list: Vec<String> = Vec::new();
        list.push(owned("tiktok.com"));
        list.push(owned("instagram.com"));
        list.push(owned("pornhub.com"));
        list.push(owned("youtube.com"));
        let mut ips: Vec<String> = Vec::new();
        ips.push(owned("127.0.0.1"));
        ips.push(owned("::1"));
        let c = Config {
            schedule: ScheduleConfig { start: 9, end: 18, block_weekends: false },
            domains: DomainsConfig { list },
            hosts: HostsConfig {
                file: owned("/etc/hosts"),
                marker: owned("# --- PARAMO BLOCK ---"),
                redirect_ips: ips,
            },
            logging: LoggingConfig { file: owned("/var/log/paramo.log"), level: owned("info") },
        };
        assert(strs(c.domains.list@) =~= default_domains());
        assert(strs(c.hosts.redirect_ips@) =~= seq!["127.0.0.1"@, "::1"@]);
        c
    }
}

/// What `Config::update_value` does to a configuration: the new configuration, or
/// the message of the error. An hour is a whole number from 0 to 23.
pub open spec fn updated_config(c: Config, key: Seq<char>, value: Seq<char>) -> Result<Config, Seq<char>> {
    if key == "schedule.block_start"@ {
        match parse_unsigned_spec(value, 23) {
            Some(v) => Ok(Config { schedule: ScheduleConfig { start: v as u8, ..c.schedule }, ..c }),
            None => Err("Invalid hour (0-23)"@),
        }
    } else if key == "schedule.block_end"@ {
        match parse_unsigned_spec(value, 23) {
            Some(v) => Ok(Config { schedule: ScheduleConfig { end: v as u8, ..c.schedule }, ..c }),
            None => Err("Invalid hour (0-23)"@),
        }
    } else if key == "schedule.block_weekends"@ {
        match parse_bool_spec(value) {
            Some(b) => Ok(Config { schedule: ScheduleConfig { block_weekends: b, ..c.schedule }, ..c }),
            None => Err("Invalid boolean (true/false)"@),
        }
    } else if key == "logging.level"@ {
        Ok(Config { logging: LoggingConfig { level: arbitrary_string_with(value), ..c.logging }, ..c })
    } else {
        Err("Unknown configuration key: "@ + key)
    }
}

/// Some `String` whose text is `s`.
pub open spec fn arbitrary_string_with(s: Seq<char>) -> String {
    choose|x: String| x@ == s
}

/// Two configurations that agree in everything but the text of their level (a
/// `String` is known by its text).
pub open spec fn same_config(a: Config, b: Config) -> bool {
    &&& a.schedule == b.schedule
    &&& a.domains == b.domains
    &&& a.hosts == b.hosts
    &&& a.logging.file == b.logging.file
    &&& a.logging.level@ == b.logging.level@
}

fn str_is(a: &Vec<char>, b: &str) -> (r: bool)
    ensures
        r == (a@ == b@),
{
    let bc = to_chars(b);
    chars_eq(a, &bc)
}

impl Config {
    /// Sets one configuration value from its text (see `updated_config`); the
    /// configuration is left as it was on an error.
    pub fn update_value(&mut self, key: &str, value: &str) -> (r: Result<(), String>)
        ensures
            match updated_config(*old(self), key@, value@) {
                Ok(c) => r is Ok && same_config(*final(self), c),
                Err(msg) => r matches Err(e) && e@ == msg && *final(self) == *old(self),
            },
    {
        let k = to_chars(key);
        if str_is(&k, "schedule.block_start") {
            match parse_unsigned(value, 23) {
                Some(v) => {
                    self.schedule.start = v as u8;
                    Ok(())
                },
                None => Err(owned("Invalid hour (0-23)")),
            }
        } else if str_is(&k, "schedule.block_end") {
            match parse_unsigned(value, 23) {
                Some(v) => {
                    self.schedule.end = v as u8;
                    Ok(())
                },
                None => Err(owned("Invalid hour (0-23)")),
            }
        } else if str_is(&k, "schedule.block_weekends") {
            match parse_bool(value) {
                Some(b) => {
                    self.schedule.block_weekends = b;
                    Ok(())
                },
                None => Err(owned("Invalid boolean (true/false)")),
            }
        } else if str_is(&k, "logging.level") {
            self.logging.level = owned(value);
            Ok(())
        } else {
            let mut m = to_chars("Unknown configuration key: ");
            extend_str(&mut m, key);
            Err(from_chars(&m))
        }
    }
}

} // verus!

verus! {

/// Where the active configuration comes from.
#[derive(Debug, Clone, Copy, PartialEq, Eq, Structural)]
pub enum ConfigSource {
    Active,
    Legacy,
    EmbeddedDefault,
}

/// The system file when it exists, else the file of the earlier installation when it
/// exists, else the built-in default.
pub fn config_source(active_exists: bool, legacy_exists: bool) -> (r: ConfigSource)
    ensures
        r == (if active_exists {
            ConfigSource::Active
        } else if legacy_exists {
            ConfigSource::Legacy
        } else {
            ConfigSource::EmbeddedDefault
        }),
{
    if active_exists {
        ConfigSource::Active
    } else if legacy_exists {
        ConfigSource::Legacy
    } else {
        ConfigSource::EmbeddedDefault
    }
}

} // verus!

verus! {

/// The site as the list keeps it (see `normalize_domain`).
fn normalized_site(raw: &str) -> (r: String)
    ensures
        r@ == normalize_domain(raw@),
{
    let c = to_chars(raw);
    let t = trim_chars(&c);
    let ts = from_chars(&t);
    to_lowercase(ts.as_str())
}

/// The message for a site that is empty once trimmed.
pub open spec fn invalid_site_message(raw: Seq<char>) -> Seq<char> {
    "invalid site: '"@ + raw + "'"@
}

fn invalid_site(raw: &str) -> (r: String)
    ensures
        r@ == invalid_site_message(raw@),
{
    let mut m = to_chars("invalid site: '");
    extend_str(&mut m, raw);
    extend_str(&mut m, "'");
    from_chars(&m)
}

/// The position of `site` in `list`, if it is there.
fn position_of(list: &Vec<String>, site: &String) -> (r: Option<usize>)
    ensures
        match r {
            Some(i) => i < list@.len() && list@[i as int]@ == site@ && strs(list@).contains(site@)
                && forall|k: int| 0 <= k < i ==> list@[k]@ != site@,
            None => !strs(list@).contains(site@),
        },
{
    let mut i: usize = 0;
    while i < list.len()
        invariant
            i <= list@.len(),
            forall|k: int| 0 <= k < i ==> list@[k]@ != site@,
        decreases list@.len() - i,
    {
        if list[i] == *site {
            assert(strs(list@)[i as int] == site@);
            return Some(i);
        }
        i = i + 1;
    }
    proof {
        if strs(list@).contains(site@) {
            let k = choose|k: int| 0 <= k < strs(list@).len() && strs(list@)[k] == site@;
            assert(list@[k]@ == site@);
        }
    }
    None
}

impl Config {
    /// Adds a site (trimmed and in small letters) to the block list, unless it is
    /// there already; an empty site is an error. Only the list changes.
    pub fn add_site(&mut self, raw: &str) -> (r: Result<SiteMutation, String>)
        ensures
            normalize_domain(raw@).len() == 0 ==> (r matches Err(e) && e@ == invalid_site_message(raw@)
                && *final(self) == *old(self)),
            normalize_domain(raw@).len() > 0 && strs(old(self).domains.list@).contains(
                normalize_domain(raw@),
            ) ==> (r matches Ok(SiteMutation::AlreadyPresent(s)) && s@ == normalize_domain(raw@)
                && *final(self) == *old(self)),
            normalize_domain(raw@).len() > 0 && !strs(old(self).domains.list@).contains(
                normalize_domain(raw@),
            ) ==> (r matches Ok(SiteMutation::Added(s)) && s@ == normalize_domain(raw@) && strs(
                final(self).domains.list@,
            ) == strs(old(self).domains.list@).push(normalize_domain(raw@))
                && final(self).schedule == old(self).schedule && final(self).hosts == old(self).hosts
                && final(self).logging == old(self).logging),
    {
        let site = normalized_site(raw);
        if site.unicode_len() == 0 {
            return Err(invalid_site(raw));
        }
        match position_of(&self.domains.list, &site) {
            Some(_) => Ok(SiteMutation::AlreadyPresent(site)),
            None => {
                let kept = site.clone();
                self.domains.list.push(kept);
                assert(strs(self.domains.list@) =~= strs(old(self).domains.list@).push(site@));
                Ok(SiteMutation::Added(site))
            },
        }
    }

    /// Removes a site (trimmed and in small letters) from the block list: its first
    /// occurrence, the rest keeping their order. An empty site is an error.
    pub fn remove_site(&mut self, raw: &str) -> (r: Result<SiteMutation, String>)
        ensures
            normalize_domain(raw@).len() == 0 ==> (r matches Err(e) && e@ == invalid_site_message(raw@)
                && *final(self) == *old(self)),
            normalize_domain(raw@).len() > 0 && !strs(old(self).domains.list@).contains(
                normalize_domain(raw@),
            ) ==> (r matches Ok(SiteMutation::NotFound(s)) && s@ == normalize_domain(raw@)
                && *final(self) == *old(self)),
            normalize_domain(raw@).len() > 0 && strs(old(self).domains.list@).contains(
                normalize_domain(raw@),
            ) ==> (r matches Ok(SiteMutation::Removed(s)) && s@ == normalize_domain(raw@) && (exists|i: int|
                0 <= i < old(self).domains.list@.len() && strs(old(self).domains.list@)[i]
                    == normalize_domain(raw@) && !strs(old(self).domains.list@).take(i).contains(
                    normalize_domain(raw@),
                ) && #[trigger] strs(final(self).domains.list@) == strs(old(self).domains.list@).remove(i))
                && final(self).schedule == old(self).schedule && final(self).hosts == old(self).hosts
                && final(self).logging == old(self).logging),
    {
        let site = normalized_site(raw);
        if site.unicode_len() == 0 {
            return Err(invalid_site(raw));
        }
        match position_of(&self.domains.list, &site) {
            Some(i) => {
                let ghost before = self.domains.list@;
                self.domains.list.remove(i);
                proof {
                    assert(strs(self.domains.list@) =~= strs(before).remove(i as int));
                    if strs(before).take(i as int).contains(site@) {
                        let k = choose|k: int| 0 <= k < i && strs(before).take(i as int)[k] == site@;
                        assert(before[k]@ == site@);
                    }
                }
                Ok(SiteMutation::Removed(site))
            },
            None => Ok(SiteMutation::NotFound(site)),
        }
    }

    /// Sets the schedule; an hour past 23 is an error and changes nothing.
    pub fn set_schedule(&mut self, start: u8, end: u8, block_weekends: bool) -> (r: Result<(), String>)
        ensures
            start > 23 || end > 23 ==> (r matches Err(e) && e@ == "Invalid hour (0-23)"@ && *final(self)
                == *old(self)),
            start <= 23 && end <= 23 ==> r is Ok && final(self).schedule == (ScheduleConfig {
                start,
                end,
                block_weekends,
            }) && final(self).domains == old(self).domains && final(self).hosts == old(self).hosts
                && final(self).logging == old(self).logging,
    {
        if start > 23 || end > 23 {
            return Err(owned("Invalid hour (0-23)"));
        }
        self.schedule = ScheduleConfig { start, end, block_weekends };
        Ok(())
    }
}

} // verus!

verus! {

/// Removing a site undoes adding it: when `site` was not listed, adding it puts it
/// last, and removing its first occurrence from there gives the list back.
pub proof fn law_remove_undoes_add(list: Seq<Seq<char>>, site: Seq<char>)
    requires
        !list.contains(site),
    ensures
        forall|i: int|
            0 <= i < list.push(site).len() && list.push(site)[i] == site && !list.push(site).take(i).contains(
                site,
            ) ==> #[trigger] list.push(site).remove(i) == list,
{
    let l2 = list.push(site);
    assert forall|i: int|
        0 <= i < l2.len() && l2[i] == site && !l2.take(i).contains(site) implies #[trigger] l2.remove(i)
        == list by {
        if i < list.len() {
            assert(list[i] == l2[i]);
            assert(list.contains(site));
        }
        assert(l2.remove(i) =~= list);
    }
}

/// Setting the hour at which the block ends sets that hour and nothing else: with a
/// valid hour (a whole number from 0 to 23) the new configuration ends the block at
/// it and keeps the start hour, the weekend rule, the sites, the hosts settings and
/// the logging; with any other text the change is refused.
pub proof fn law_set_block_end_sets_only_end(c: Config, value: Seq<char>)
    ensures
        parse_unsigned_spec(value, 23) is None ==> updated_config(c, "schedule.block_end"@, value) is Err,
        parse_unsigned_spec(value, 23) matches Some(v) ==> (updated_config(c, "schedule.block_end"@, value) matches Ok(
            c2,
        ) && c2.schedule.end as nat == v && v <= 23 && c2.schedule.start == c.schedule.start
            && c2.schedule.block_weekends == c.schedule.block_weekends && c2.domains == c.domains && c2.hosts
            == c.hosts && c2.logging == c.logging),
{
    reveal_strlit("schedule.block_start");
    reveal_strlit("schedule.block_end");
    assert("schedule.block_end"@ != "schedule.block_start"@) by {
        assert("schedule.block_end"@.len() != "schedule.block_start"@.len());
    }
}

/// Setting the hour at which the block starts sets that hour and nothing else: with
/// a valid hour (a whole number from 0 to 23) the new configuration starts the block
/// at it and keeps the end hour, the weekend rule, the sites, the hosts settings and
/// the logging; with any other text the change is refused.
pub proof fn law_set_block_start_sets_only_start(c: Config, value: Seq<char>)
    ensures
        parse_unsigned_spec(value, 23) is None ==> updated_config(c, "schedule.block_start"@, value) is Err,
        parse_unsigned_spec(value, 23) matches Some(v) ==> (updated_config(c, "schedule.block_start"@, value) matches Ok(
            c2,
        ) && c2.schedule.start as nat == v && v <= 23 && c2.schedule.end == c.schedule.end
            && c2.schedule.block_weekends == c.schedule.block_weekends && c2.domains == c.domains && c2.hosts
            == c.hosts && c2.logging == c.logging),
{
}

} // verus!
