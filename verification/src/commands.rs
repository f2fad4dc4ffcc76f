//! The sequential commands and their decisions.
//!
//! Each command couples a parsed argument set with the settings it
//! runs under. The loops these commands drive (search pages, twin
//! deletions, feed following) suspend on network calls, so the driver
//! runs them; every decision inside them — when a page is the last,
//! what a deletion prints, when following stops — is a verified
//! function here.

use vstd::prelude::*;

use crate::settings::Settings;
use crate::text::{begins_with, contains_str, contains_sub, starts_with_str};
use crate::host_worker::NetworkType;

verus! {

/// The number of twins a full search page carries; a shorter page is
/// the last one of its source.
pub const SEARCH_PAGE_SIZE: usize = 100;

/// Whether a search page of `twins_in_page` twins, against a maximum
/// page size of `page_size`, is the heuristic last page: exactly then
/// the consumer closes the stream proactively. A full page never
/// closes it.
pub fn should_close_stream(twins_in_page: usize, page_size: usize) -> (r: bool)
    ensures
        r <==> twins_in_page < page_size,
{
    twins_in_page < page_size
}

/// Which name domain a deployment's lookups query, decided by its
/// configured host address.
pub fn network_type_of(host_address: &str) -> (r: NetworkType)
    ensures
        r == NetworkType::Dev <==> contains_sub(host_address@, ".dev."@),
{
    if contains_str(host_address, ".dev.") {
        NetworkType::Dev
    } else {
        NetworkType::Prod
    }
}

/// The property filter that discovers hosts: each host twin carries
/// the host-twin type under the standard type predicate.
pub fn host_search_property() -> (r: (String, String))
    ensures
        r.0@ == "http://www.w3.org/1999/02/22-rdf-syntax-ns#type"@,
        r.1@ == "http://data.iotics.com/public#HostTwin"@,
{
    (
        String::from_str("http://www.w3.org/1999/02/22-rdf-syntax-ns#type"),
        String::from_str("http://data.iotics.com/public#HostTwin"),
    )
}

/// The property filter that finds the twins of one model: the model
/// predicate against the model's identifier.
pub fn model_search_property(model_did: &str) -> (r: (String, String))
    ensures
        r.0@ == "https://data.iotics.com/app#model"@,
        r.1@ == model_did@,
{
    (String::from_str("https://data.iotics.com/app#model"), model_did.to_owned())
}

/// What a deletion prints around the call itself: an announcement
/// line when verbose, and a line break every 64 silent deletions.
#[derive(Debug, Clone, PartialEq, Eq, Structural)]
pub struct DeleteLogCue {
    pub announce: bool,
    pub break_line: bool,
}

/// The printing decisions before deleting the twin after `prev_index`
/// earlier deletions.
pub fn delete_log_cue(prev_index: usize, verbose: bool) -> (r: DeleteLogCue)
    ensures
        r.announce == verbose,
        r.break_line == (!verbose && prev_index != 0 && prev_index % 64 == 0),
{
    DeleteLogCue {
        announce: verbose,
        break_line: !verbose && prev_index != 0 && prev_index % 64 == 0,
    }
}

/// Deletes every twin that was created from a given model.
#[derive(Debug, Clone)]
pub struct DeleteTwinsArgs {
    pub config: String,
    pub model_did: String,
    pub delete_model: bool,
    pub verbose: bool,
}

/// The model-deletion command that deletes as it pages, with its
/// running counters.
#[derive(Debug)]
pub struct DeleteTwins {
    pub opts: DeleteTwinsArgs,
    pub settings: Settings,
    pub twins_found: usize,
    pub twins_deleted: usize,
}

impl DeleteTwins {
    /// A fresh command: nothing found, nothing deleted.
    pub fn new(opts: DeleteTwinsArgs, settings: Settings) -> (r: DeleteTwins)
        ensures
            r.opts == opts,
            r.settings == settings,
            r.twins_found == 0,
            r.twins_deleted == 0,
    {
        DeleteTwins { opts, settings, twins_found: 0, twins_deleted: 0 }
    }

    /// The printing decisions before this command's next deletion:
    /// verbosity may be forced for the model twin itself, and the
    /// silent line break falls on every 64th find, the first included.
    pub fn delete_cue(&self, force_verbose: bool) -> (r: DeleteLogCue)
        ensures
            r.announce == (self.opts.verbose || force_verbose),
            r.break_line == (!(self.opts.verbose || force_verbose) && self.twins_found % 64
                == 0),
    {
        let verbose = self.opts.verbose || force_verbose;
        DeleteLogCue { announce: verbose, break_line: !verbose && self.twins_found % 64 == 0 }
    }

    /// Account for one deletion attempt: one more twin found, and one
    /// more deleted when the call succeeded.
    pub fn record_delete(&mut self, deleted_ok: bool)
        requires
            old(self).twins_found < usize::MAX,
            old(self).twins_deleted <= old(self).twins_found,
        ensures
            final(self).twins_found == old(self).twins_found + 1,
            final(self).twins_deleted == old(self).twins_deleted + (if deleted_ok {
                1int
            } else {
                0
            }),
            final(self).twins_deleted <= final(self).twins_found,
            final(self).opts == old(self).opts,
            final(self).settings == old(self).settings,
    {
        self.twins_found = self.twins_found + 1;
        if deleted_ok {
            self.twins_deleted = self.twins_deleted + 1;
        }
    }
}

/// Deletes every twin a host holds for the configured identity.
#[derive(Debug, Clone)]
pub struct DeleteAllTwinsArgs {
    pub config: String,
    pub verbose: bool,
}

/// The delete-everything command, with its running counters.
#[derive(Debug)]
pub struct DeleteAllTwins {
    pub opts: DeleteAllTwinsArgs,
    pub settings: Settings,
    pub twins_found: usize,
    pub twins_deleted: usize,
}

impl DeleteAllTwins {
    /// A fresh command: nothing found, nothing deleted.
    pub fn new(opts: DeleteAllTwinsArgs, settings: Settings) -> (r: DeleteAllTwins)
        ensures
            r.opts == opts,
            r.settings == settings,
            r.twins_found == 0,
            r.twins_deleted == 0,
    {
        DeleteAllTwins { opts, settings, twins_found: 0, twins_deleted: 0 }
    }

    /// Account for one deletion attempt.
    pub fn record_delete(&mut self, deleted_ok: bool)
        requires
            old(self).twins_found < usize::MAX,
            old(self).twins_deleted <= old(self).twins_found,
        ensures
            final(self).twins_found == old(self).twins_found + 1,
            final(self).twins_deleted == old(self).twins_deleted + (if deleted_ok {
                1int
            } else {
                0
            }),
            final(self).twins_deleted <= final(self).twins_found,
            final(self).opts == old(self).opts,
            final(self).settings == old(self).settings,
    {
        self.twins_found = self.twins_found + 1;
        if deleted_ok {
            self.twins_deleted = self.twins_deleted + 1;
        }
    }
}

/// Deletes every twin of a model, collecting the pages first.
#[derive(Debug, Clone)]
pub struct DeleteTwinsByModelArgs {
    pub config: String,
    pub model_did: String,
    pub delete_model: bool,
    pub verbose: bool,
}

/// The collect-then-delete model command.
#[derive(Debug)]
pub struct DeleteTwinsByModel {
    pub opts: DeleteTwinsByModelArgs,
    pub settings: Settings,
}

impl DeleteTwinsByModel {
    /// A fresh command around its arguments and settings.
    pub fn new(opts: DeleteTwinsByModelArgs, settings: Settings) -> (r: DeleteTwinsByModel)
        ensures
            r.opts == opts,
            r.settings == settings,
    {
        DeleteTwinsByModel { opts, settings }
    }
}

/// Prints the full description of one twin.
#[derive(Debug, Clone)]
pub struct DescribeTwinArgs {
    pub config: String,
    pub twin_did: String,
    pub host_id: Option<String>,
    pub verbose: bool,
}

/// The describe command.
#[derive(Debug)]
pub struct DescribeTwin {
    pub opts: DescribeTwinArgs,
    pub settings: Settings,
}

impl DescribeTwin {
    /// A fresh command around its arguments and settings.
    pub fn new(opts: DescribeTwinArgs, settings: Settings) -> (r: DescribeTwin)
        ensures
            r.opts == opts,
            r.settings == settings,
    {
        DescribeTwin { opts, settings }
    }
}

/// Follows the feeds of every twin created from a given model.
#[derive(Debug, Clone)]
pub struct FollowByModelArgs {
    pub config: String,
    pub model_did: String,
    pub feed_id: String,
    pub follower_twin_did: String,
    pub maximum_twins: usize,
    pub verbose: bool,
}

/// The follow command.
#[derive(Debug)]
pub struct FollowByModel {
    pub opts: FollowByModelArgs,
    pub settings: Settings,
}

impl FollowByModel {
    /// A fresh command around its arguments and settings.
    pub fn new(opts: FollowByModelArgs, settings: Settings) -> (r: FollowByModel)
        ensures
            r.opts == opts,
            r.settings == settings,
    {
        FollowByModel { opts, settings }
    }
}

/// Whether the follower cap is reached: exactly then the discovery
/// stream is closed early. In-flight followers keep running.
pub fn should_stop_following(count: usize, maximum_twins: usize) -> (r: bool)
    ensures
        r <==> count >= maximum_twins,
{
    count >= maximum_twins
}

/// One event on a feed-follow stream, as the driver hands it over.
#[derive(Debug)]
pub enum FollowEvent {
    /// A message carrying feed data with its declared media type.
    Payload(String, Vec<u8>),
    /// A message without feed data.
    NoPayload,
    /// The stream yielded an empty message.
    Stalled,
    /// The stream failed.
    Failed,
}

/// What the follower does with one event.
#[derive(Debug)]
pub enum FollowAction {
    /// Decode these bytes as JSON and log the outcome.
    DecodeJson(Vec<u8>),
    /// Nothing to do; keep listening.
    Ignore,
    /// Log the stall; keep listening.
    LogStall,
    /// Stop listening to this feed.
    Stop,
}

/// Decide a follower's next action: only JSON-typed feed data is
/// decoded, an empty message is logged, and only a stream failure ends
/// the loop.
pub fn follow_step(event: FollowEvent) -> (r: FollowAction)
    ensures
        match event {
            FollowEvent::Payload(mime, data) => if begins_with(mime@, "application/json"@) {
                r == FollowAction::DecodeJson(data)
            } else {
                r == FollowAction::Ignore
            },
            FollowEvent::NoPayload => r == FollowAction::Ignore,
            FollowEvent::Stalled => r == FollowAction::LogStall,
            FollowEvent::Failed => r == FollowAction::Stop,
        },
{
    match event {
        FollowEvent::Payload(mime, data) => {
            if starts_with_str(mime.as_str(), "application/json") {
                FollowAction::DecodeJson(data)
            } else {
                FollowAction::Ignore
            }
        },
        FollowEvent::NoPayload => FollowAction::Ignore,
        FollowEvent::Stalled => FollowAction::LogStall,
        FollowEvent::Failed => FollowAction::Stop,
    }
}

/// Lists every host found in the network, with optional version and
/// twin-count probes.
#[derive(Debug, Clone)]
pub struct ListHostsArgs {
    pub config: String,
    pub with_version: bool,
    pub with_twins: bool,
    pub verbose: bool,
}

/// The host-listing command.
#[derive(Debug)]
pub struct ListHosts {
    pub opts: ListHostsArgs,
    pub settings: Settings,
}

impl ListHosts {
    /// A fresh command around its arguments and settings.
    pub fn new(opts: ListHostsArgs, settings: Settings) -> (r: ListHosts)
        ensures
            r.opts == opts,
            r.settings == settings,
    {
        ListHosts { opts, settings }
    }
}

/// Builds the knowledge graph of every host and twin discovered.
#[derive(Debug, Clone)]
pub struct DidKGArgs {
    pub config: String,
    pub verbose: bool,
}

/// The knowledge-graph command.
#[derive(Debug)]
pub struct DidKG {
    pub opts: DidKGArgs,
    pub settings: Settings,
}

impl DidKG {
    /// A fresh command around its arguments and settings.
    pub fn new(opts: DidKGArgs, settings: Settings) -> (r: DidKG)
        ensures
            r.opts == opts,
            r.settings == settings,
    {
        DidKG { opts, settings }
    }
}

/// Everything the tool can be asked to do.
#[derive(Debug)]
pub enum Command {
    DeleteTwinsByModel(DeleteTwinsByModelArgs),
    DeleteAllTwins(DeleteAllTwinsArgs),
    FollowByModel(FollowByModelArgs),
    ListHosts(ListHostsArgs),
    DidKG(DidKGArgs),
}

} // verus!
