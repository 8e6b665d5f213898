//! Maintenance commands over the ledger: bulk-insert URLs (mark as
//! already posted without publishing), bulk-remove URLs (make the bot
//! able to post them again), and export every stored URL as one
//! comma-separated line. These are thin, verified wrappers around the
//! ledger's own operations; the process around the library parses the
//! command line and prints the export line.

use crate::database::record_spec;
use crate::database::remove_spec;
use crate::database::Database;
use crate::textfmt::join_strings;
use crate::textfmt::join_with;
use vstd::prelude::*;

verus! {

/// Configuration shared by every command, as plain values.
#[derive(Debug)]
pub struct GlobalArguments {
    /// The base directory for configuration and persistent data.
    pub data_path: String,
    /// The connection string of the ledger's durable storage.
    pub database_url: String,
}

/// Errors of the maintenance commands.
#[derive(Debug, PartialEq, Eq, Structural, Clone, Copy)]
pub enum CommandError {
    /// The ledger holds nothing, so there is nothing to export.
    NoStoredPosts,
}

/// Recording each URL in turn, first to last. A URL already present —
/// or repeated in the list — leaves the ledger unchanged.
pub open spec fn record_all_spec(entries: Seq<Seq<char>>, urls: Seq<Seq<char>>) -> Seq<Seq<char>>
    decreases urls.len(),
{
    if urls.len() == 0 {
        entries
    } else {
        record_spec(record_all_spec(entries, urls.drop_last()), urls.last())
    }
}

/// Removing each URL in turn, first to last. A URL that is absent leaves
/// the ledger unchanged.
pub open spec fn remove_all_spec(entries: Seq<Seq<char>>, urls: Seq<Seq<char>>) -> Seq<Seq<char>>
    decreases urls.len(),
{
    if urls.len() == 0 {
        entries
    } else {
        remove_spec(remove_all_spec(entries, urls.drop_last()), urls.last())
    }
}

/// Export every stored URL as one comma-separated line.
pub struct ExportPostsCommand;

impl ExportPostsCommand {
    /// The export line for the ledger's contents, in insertion order; an
    /// empty ledger is reported instead, as there is nothing to print.
    pub fn run(self, database: &Database) -> (result: Result<String, CommandError>)
        ensures
            result is Ok <==> database@.len() > 0,
            result is Err ==> result->Err_0 == CommandError::NoStoredPosts,
            result is Ok ==> result->Ok_0@ == join_with(database@, ","@),
    {
        match database.get_all_post_urls() {
            None => Err(CommandError::NoStoredPosts),
            Some(urls) => Ok(join_strings(&urls, ",")),
        }
    }
}

/// Mark URLs as already posted, without publishing anything.
pub struct InsertPostsCommand {
    /// The URLs to record.
    pub posts: Vec<String>,
}

impl InsertPostsCommand {
    /// Record each URL; one that is already present is left alone, so
    /// running the command twice changes nothing.
    pub fn run(self, database: &mut Database)
        requires
            old(database).wf(),
        ensures
            final(database).wf(),
            final(database)@ == record_all_spec(old(database)@, self.posts.deep_view()),
    {
        let ghost dv = self.posts.deep_view();
        let n = self.posts.len();
        let mut i: usize = 0;
        while i < n
            invariant
                n == self.posts@.len(),
                dv == self.posts.deep_view(),
                0 <= i <= n,
                database.wf(),
                database@ == record_all_spec(old(database)@, dv.take(i as int)),
            decreases n - i,
        {
            proof {
                assert(dv.take(i as int + 1).drop_last() =~= dv.take(i as int));
                assert(dv.take(i as int + 1).last() == dv[i as int]);
            }
            let url = &self.posts[i];
            if !database.has_posted_url(url) {
                let _ = database.add_posted_url(url);
            }
            i += 1;
        }
        proof {
            assert(dv.take(n as int) =~= dv);
        }
    }
}

/// Remove URLs from the posted ledger, so the bot may post them again.
pub struct RemovePostsCommand {
    /// The URLs to remove.
    pub posts: Vec<String>,
}

impl RemovePostsCommand {
    /// Remove each URL; one that is absent is left alone, not an error.
    pub fn run(self, database: &mut Database)
        requires
            old(database).wf(),
        ensures
            final(database).wf(),
            final(database)@ == remove_all_spec(old(database)@, self.posts.deep_view()),
    {
        let ghost dv = self.posts.deep_view();
        let n = self.posts.len();
        let mut i: usize = 0;
        while i < n
            invariant
                n == self.posts@.len(),
                dv == self.posts.deep_view(),
                0 <= i <= n,
                database.wf(),
                database@ == remove_all_spec(old(database)@, dv.take(i as int)),
            decreases n - i,
        {
            proof {
                assert(dv.take(i as int + 1).drop_last() =~= dv.take(i as int));
                assert(dv.take(i as int + 1).last() == dv[i as int]);
            }
            let url = &self.posts[i];
            if database.has_posted_url(url) {
                let _ = database.remove_posted_url(url);
            }
            i += 1;
        }
        proof {
            assert(dv.take(n as int) =~= dv);
        }
    }
}

/// The selected maintenance command.
pub enum DatabaseSubcommand {
    InsertPost(InsertPostsCommand),
    RemovePost(RemovePostsCommand),
    ExportPosts(ExportPostsCommand),
}

/// The maintenance command group: dispatches to the selected command.
pub struct DatabaseCommandBase {
    pub subcommand: DatabaseSubcommand,
}

impl DatabaseCommandBase {
    /// Run the selected command against the ledger. Export yields a line
    /// of output; the bulk commands yield none.
    pub fn run(self, database: &mut Database) -> (result: Result<Option<String>, CommandError>)
        requires
            old(database).wf(),
        ensures
            final(database).wf(),
            (self.subcommand matches DatabaseSubcommand::InsertPost(cmd) ==> result is Ok
                && result->Ok_0 is None && final(database)@ == record_all_spec(
                old(database)@,
                cmd.posts.deep_view(),
            )),
            (self.subcommand matches DatabaseSubcommand::RemovePost(cmd) ==> result is Ok
                && result->Ok_0 is None && final(database)@ == remove_all_spec(
                old(database)@,
                cmd.posts.deep_view(),
            )),
            (self.subcommand matches DatabaseSubcommand::ExportPosts(_cmd) ==> final(database)@
                == old(database)@ && (result is Ok <==> old(database)@.len() > 0) && (result is Ok
                ==> result->Ok_0 is Some && result->Ok_0.unwrap()@ == join_with(
                old(database)@,
                ","@,
            )) && (result is Err ==> result->Err_0 == CommandError::NoStoredPosts)),
    {
        match self.subcommand {
            DatabaseSubcommand::InsertPost(cmd) => {
                cmd.run(database);
                Ok(None)
            },
            DatabaseSubcommand::RemovePost(cmd) => {
                cmd.run(database);
                Ok(None)
            },
            DatabaseSubcommand::ExportPosts(cmd) => match cmd.run(database) {
                Ok(line) => Ok(Some(line)),
                Err(e) => Err(e),
            },
        }
    }
}

} // verus!
