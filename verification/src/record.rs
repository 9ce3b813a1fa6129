//! One stored file, and what decides whether it may still be served.

use vstd::prelude::*;

verus! {

/// The two alias namespaces. A short alias never collides with a long one:
/// each is looked up among the aliases of its own kind only.
#[derive(Clone, Copy, Debug, PartialEq, Eq, Structural)]
pub enum AliasKind {
    Short,
    Long,
}

/// The metadata row of one uploaded file.
#[derive(Debug)]
pub struct UploadRecord {
    /// Identifier of the file, and key of its blob.
    pub id: u64,
    pub short_alias: String,
    pub long_alias: String,
    /// The uploader's identity: an IP address or a user name.
    pub origin: String,
    pub size_bytes: u64,
    /// Seconds since the epoch.
    pub created_at: u64,
    /// Seconds since the epoch; from this instant on the file is dead.
    pub expires_at: u64,
    /// How many fetches are left; `None` means no limit.
    pub downloads_remaining: Option<u16>,
    /// Secret that authorizes changes to this record.
    pub admin_token: String,
}

/// A record as a mathematical value: strings are sequences of characters.
pub ghost struct RecordView {
    pub id: u64,
    pub short_alias: Seq<char>,
    pub long_alias: Seq<char>,
    pub origin: Seq<char>,
    pub size_bytes: u64,
    pub created_at: u64,
    pub expires_at: u64,
    pub downloads_remaining: Option<u16>,
    pub admin_token: Seq<char>,
}

impl View for UploadRecord {
    type V = RecordView;

    open spec fn view(&self) -> RecordView {
        RecordView {
            id: self.id,
            short_alias: self.short_alias@,
            long_alias: self.long_alias@,
            origin: self.origin@,
            size_bytes: self.size_bytes,
            created_at: self.created_at,
            expires_at: self.expires_at,
            downloads_remaining: self.downloads_remaining,
            admin_token: self.admin_token@,
        }
    }
}

impl RecordView {
    /// The retention period is over at `now`.
    pub open spec fn is_expired(self, now: u64) -> bool {
        self.expires_at <= now
    }

    /// The download allowance is used up.
    pub open spec fn is_exhausted(self) -> bool {
        self.downloads_remaining == Some(0u16)
    }

    /// The one liveness predicate: neither expired nor exhausted. Quota
    /// accounting, alias resolution and reclamation all go by it.
    pub open spec fn is_live(self, now: u64) -> bool {
        !self.is_expired(now) && !self.is_exhausted()
    }

    /// The alias of the given kind.
    pub open spec fn alias(self, kind: AliasKind) -> Seq<char> {
        match kind {
            AliasKind::Short => self.short_alias,
            AliasKind::Long => self.long_alias,
        }
    }

    /// The same record with another alias of the given kind.
    pub open spec fn with_alias(self, kind: AliasKind, alias: Seq<char>) -> RecordView {
        match kind {
            AliasKind::Short => RecordView { short_alias: alias, ..self },
            AliasKind::Long => RecordView { long_alias: alias, ..self },
        }
    }

    /// The same record with another download allowance.
    pub open spec fn with_downloads(self, downloads: Option<u16>) -> RecordView {
        RecordView { downloads_remaining: downloads, ..self }
    }
}

impl Clone for UploadRecord {
    fn clone(&self) -> (r: Self)
        ensures
            r@ == self@,
    {
        UploadRecord {
            id: self.id,
            short_alias: self.short_alias.clone(),
            long_alias: self.long_alias.clone(),
            origin: self.origin.clone(),
            size_bytes: self.size_bytes,
            created_at: self.created_at,
            expires_at: self.expires_at,
            downloads_remaining: self.downloads_remaining,
            admin_token: self.admin_token.clone(),
        }
    }
}

impl UploadRecord {
    /// Whether the retention period is over at `now`.
    pub fn is_expired(&self, now: u64) -> (b: bool)
        ensures
            b == self@.is_expired(now),
    {
        self.expires_at <= now
    }

    /// Whether the download allowance is used up.
    pub fn is_exhausted(&self) -> (b: bool)
        ensures
            b == self@.is_exhausted(),
    {
        match self.downloads_remaining {
            Some(n) => n == 0,
            None => false,
        }
    }

    /// Whether the record may still be served at `now`.
    pub fn is_live(&self, now: u64) -> (b: bool)
        ensures
            b == self@.is_live(now),
    {
        !self.is_expired(now) && !self.is_exhausted()
    }

    /// The alias of the given kind.
    pub fn alias(&self, kind: AliasKind) -> (a: &String)
        ensures
            a@ == self@.alias(kind),
    {
        match kind {
            AliasKind::Short => &self.short_alias,
            AliasKind::Long => &self.long_alias,
        }
    }

    /// Whether `token` is this record's admin token.
    pub fn authorizes(&self, token: &String) -> (b: bool)
        ensures
            b == (self@.admin_token == token@),
    {
        self.admin_token == *token
    }
}

} // verus!
