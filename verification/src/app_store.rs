//! What the program does with what the cache answers.

use vstd::prelude::*;
use vstd::string::*;
use crate::db::{DbEvent, DbEventModel, SearchHit, SearchHitModel, SyncPlan};
use crate::events::{ImapCommand, ImapCommandModel};
use crate::imap::{MailHeader, MailHeaderModel};
use crate::state::{AppModel, EsMailApp};
use crate::text::Text;

verus! {

broadcast use vstd::string::group_string_axioms;

/// The messages a search found.
pub open spec fn hit_headers(hits: Seq<SearchHitModel>) -> Seq<MailHeaderModel> {
    Seq::new(hits.len(), |i: int| hits[i].header)
}

/// Where the messages a search found live: account and mailbox.
pub open spec fn hit_origins(hits: Seq<SearchHitModel>) -> Seq<(Text, Text)> {
    Seq::new(hits.len(), |i: int| (hits[i].account_id, hits[i].mailbox))
}

impl AppModel {
    /// The results of a search are listed.
    pub open spec fn results_listed(self, hits: Seq<SearchHitModel>) -> AppModel {
        AppModel {
            search_origins: hit_origins(hits),
            search_results: Some(hit_headers(hits)),
            ..self
        }
    }

    /// The program after an answer of the cache.
    pub open spec fn on_db(self, event: DbEventModel) -> AppModel {
        match event {
            DbEventModel::SearchResult { hits } => self.results_listed(hits),
            DbEventModel::MailFetched { header, body, attachments } => {
                if self.selected_uid == Some(header.uid) {
                    AppModel { current_attachments: attachments, ..self.text_shown(body) }
                } else {
                    self
                }
            },
            DbEventModel::MailFetchFailed { uid, error } => {
                if self.selected_uid == Some(uid) {
                    self.body_wanted(self.selected_mailbox, uid)
                } else {
                    self
                }
            },
            DbEventModel::SyncPlan { account_id, mailbox, plan } => match plan {
                SyncPlan::UpToDate => self,
                SyncPlan::FetchFrom { first_new_uid } => self.imap_to(
                    account_id,
                    ImapCommandModel::FetchHeadersFrom { mailbox, first_uid: first_new_uid },
                ),
                SyncPlan::Resync => self.imap_to(
                    account_id,
                    ImapCommandModel::FetchHeadersFrom { mailbox, first_uid: 1 },
                ),
            },
            DbEventModel::Error(error) => self.banner("Database error: "@ + error),
        }
    }
}

/// Splits search hits into the messages and where they live.
fn split_hits(hits: Vec<SearchHit>) -> (r: (Vec<MailHeader>, Vec<(String, String)>))
    ensures
        r.0.deep_view() == hit_headers(hits.deep_view()),
        r.1.deep_view() == hit_origins(hits.deep_view()),
{
    let ghost all = hits@;
    let ghost models = hits.deep_view();
    let mut left = hits;
    let mut headers: Vec<MailHeader> = Vec::new();
    let mut origins: Vec<(String, String)> = Vec::new();
    let ghost mut n: int = 0;
    assert(left@ =~= all.skip(0));
    assert(headers.deep_view() =~= hit_headers(models.take(0)));
    assert(origins.deep_view() =~= hit_origins(models.take(0)));
    while left.len() > 0
        invariant
            0 <= n <= all.len(),
            models.len() == all.len(),
            forall|i: int| 0 <= i < all.len() ==> #[trigger] models[i] == all[i]@,
            left@ == all.skip(n),
            headers.deep_view() == hit_headers(models.take(n)),
            origins.deep_view() == hit_origins(models.take(n)),
        decreases left@.len(),
    {
        let ghost held = headers.deep_view();
        let ghost held_origins = origins.deep_view();
        let hit = left.remove(0);
        assert(hit == all[n]);
        assert(left@ =~= all.skip(n + 1));
        let ghost hm = hit@;
        assert(models[n] == hm);
        headers.push(hit.header);
        origins.push((hit.account_id, hit.mailbox));
        proof {
            assert(headers.deep_view() =~= held.push(hm.header));
            assert(origins.deep_view() =~= held_origins.push((hm.account_id, hm.mailbox)));
            assert(hit_headers(models.take(n + 1)) =~= held.push(hm.header));
            assert(hit_origins(models.take(n + 1)) =~= held_origins.push(
                (hm.account_id, hm.mailbox),
            ));
            n = n + 1;
        }
    }
    assert(models.take(n) =~= models);
    (headers, origins)
}

impl EsMailApp {
    /// Lists the results of a search.
    fn list_results(&mut self, hits: Vec<SearchHit>)
        ensures
            final(self)@ == old(self)@.results_listed(hits.deep_view()),
    {
        let (headers, origins) = split_hits(hits);
        self.search_origins = origins;
        self.search_results = Some(headers);
    }

    /// Whether a message is the open one.
    fn is_open(&self, uid: u32) -> (r: bool)
        ensures
            r == (self@.selected_uid == Some(uid)),
    {
        match self.selected_uid {
            Some(u) => u == uid,
            None => false,
        }
    }

    /// Takes one answer of the cache.
    pub fn handle_db_event(&mut self, event: DbEvent)
        requires
            old(self)@.has_ids(1),
        ensures
            final(self)@ == old(self)@.on_db(event@),
    {
        match event {
            DbEvent::SearchResult { hits } => self.list_results(hits),
            DbEvent::MailFetched { header, body, attachments } => {
                if self.is_open(header.uid) {
                    self.show_text(body);
                    self.set_attachments(attachments);
                }
            },
            DbEvent::MailFetchFailed { uid, error } => {
                if self.is_open(uid) {
                    let mailbox = self.selected_mailbox.clone();
                    self.fetch_body(mailbox, uid);
                }
            },
            DbEvent::SyncPlan { account_id, mailbox, plan } => match plan {
                SyncPlan::UpToDate => {},
                SyncPlan::FetchFrom { first_new_uid } => self.send_imap_to(
                    account_id.as_str(),
                    ImapCommand::FetchHeadersFrom { mailbox, first_uid: first_new_uid },
                ),
                SyncPlan::Resync => self.send_imap_to(
                    account_id.as_str(),
                    ImapCommand::FetchHeadersFrom { mailbox, first_uid: 1 },
                ),
            },
            DbEvent::Error(error) => {
                let mut message = "Database error: ".to_owned();
                message.append(error.as_str());
                self.push_banner(message);
            },
        }
    }
}

} // verus!
