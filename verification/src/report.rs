//! The result report of one synchronization call: four non-negative
//! counters, one upload and one download counter per collection.

use vstd::prelude::*;

verus! {

/// One of the two fixed collections, always processed in this order:
/// `Servers` first, then `History`.
#[derive(Debug, Clone, Copy, PartialEq, Eq, Structural)]
pub enum Collection {
    Servers,
    History,
}

/// The fixed relative directory name of a collection: the same name under
/// the local application data root and under the remote root.
pub fn collection_dir(collection: Collection) -> (r: &'static str)
    ensures
        collection is Servers ==> r@ == "servers"@,
        collection is History ==> r@ == "history"@,
{
    match collection {
        Collection::Servers => "servers",
        Collection::History => "history",
    }
}

/// Counters accumulated across one invocation of a sync strategy. Created
/// fresh per call; counters only ever grow while the call runs.
#[derive(Debug, Clone, Copy, PartialEq, Eq, Structural)]
pub struct SyncResult {
    pub servers_uploaded: usize,
    pub servers_downloaded: usize,
    pub history_uploaded: usize,
    pub history_downloaded: usize,
}

impl Default for SyncResult {
    /// A fresh report with every counter at zero.
    fn default() -> (r: SyncResult)
        ensures
            r.servers_uploaded == 0,
            r.servers_downloaded == 0,
            r.history_uploaded == 0,
            r.history_downloaded == 0,
    {
        SyncResult { servers_uploaded: 0, servers_downloaded: 0, history_uploaded: 0, history_downloaded: 0 }
    }
}

impl SyncResult {
    /// Adds one collection's per-pass outcome to the report. Only the two
    /// counters of that collection move, and they only grow.
    pub fn record(&mut self, collection: Collection, uploaded: usize, downloaded: usize)
        requires
            collection is Servers ==> old(self).servers_uploaded + uploaded <= usize::MAX
                && old(self).servers_downloaded + downloaded <= usize::MAX,
            collection is History ==> old(self).history_uploaded + uploaded <= usize::MAX
                && old(self).history_downloaded + downloaded <= usize::MAX,
        ensures
            collection is Servers ==> final(self).servers_uploaded == old(self).servers_uploaded
                + uploaded && final(self).servers_downloaded == old(self).servers_downloaded
                + downloaded && final(self).history_uploaded == old(self).history_uploaded
                && final(self).history_downloaded == old(self).history_downloaded,
            collection is History ==> final(self).history_uploaded == old(self).history_uploaded
                + uploaded && final(self).history_downloaded == old(self).history_downloaded
                + downloaded && final(self).servers_uploaded == old(self).servers_uploaded
                && final(self).servers_downloaded == old(self).servers_downloaded,
    {
        match collection {
            Collection::Servers => {
                self.servers_uploaded = self.servers_uploaded + uploaded;
                self.servers_downloaded = self.servers_downloaded + downloaded;
            },
            Collection::History => {
                self.history_uploaded = self.history_uploaded + uploaded;
                self.history_downloaded = self.history_downloaded + downloaded;
            },
        }
    }

    /// Derived total: uploads over both collections.
    pub fn total_uploaded(&self) -> (n: usize)
        requires
            self.servers_uploaded + self.history_uploaded <= usize::MAX,
        ensures
            n == self.servers_uploaded + self.history_uploaded,
    {
        self.servers_uploaded + self.history_uploaded
    }

    /// Derived total: downloads over both collections.
    pub fn total_downloaded(&self) -> (n: usize)
        requires
            self.servers_downloaded + self.history_downloaded <= usize::MAX,
        ensures
            n == self.servers_downloaded + self.history_downloaded,
    {
        self.servers_downloaded + self.history_downloaded
    }
}

} // verus!
