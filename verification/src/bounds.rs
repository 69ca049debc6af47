//! The bounds that keep a request's work and memory finite, and the shared memory budget.

use vstd::prelude::*;

verus! {

/// The wire bytes of one gallery document: a detail record or a page of search results.
pub const GALLERY_METADATA_MAX_BYTES: usize = 2 * 1024 * 1024;

/// What one gallery document is charged while its wire bytes, its tree and its serialized answer
/// are held together.
pub const GALLERY_METADATA_BUDGET_RESERVATION_BYTES: usize = GALLERY_METADATA_MAX_BYTES * 32;

/// The bytes of a client's query.
pub const GALLERY_QUERY_BODY_MAX_BYTES: usize = 1024 * 1024;

/// The wire bytes of one version history.
pub const GALLERY_SKELETON_MAX_BYTES: usize = 16 * 1024 * 1024;

/// How many times its wire bytes a version history is charged: the buffer, every property read
/// from it, and what is kept of them.
pub const GALLERY_SKELETON_BUDGET_MULTIPLE: usize = 4;

/// What one version history is charged while it is read.
pub const GALLERY_SKELETON_BUDGET_RESERVATION_BYTES: usize = GALLERY_SKELETON_MAX_BYTES
    * GALLERY_SKELETON_BUDGET_MULTIPLE;

/// The versions kept of each platform and release channel.
pub const GALLERY_VERSIONS_PER_CHANNEL: usize = 30;

/// The extensions composed at one time for one query.
pub const GALLERY_COMPOSITION_CONCURRENCY: usize = 4;

/// The composed answers admitted at one time.
pub const GALLERY_COMPOSITION_ADMISSION: usize = 20;

/// The qualifiers that one composed query may carry.
pub const GALLERY_COMPOSED_QUALIFIER_CAP: usize = 8;

/// The extensions that one composed answer may carry.
pub const GALLERY_COMPOSED_IDENTITY_CAP: usize = 50;

/// The serialized bytes of one composed extension.
pub const GALLERY_COMPOSED_EXTENSION_BYTES: usize = 512 * 1024;

/// What one composed answer is charged while its tree and its serialized form are held together.
pub const GALLERY_COMPOSITION_BUDGET_RESERVATION_BYTES: usize = GALLERY_COMPOSED_IDENTITY_CAP
    * GALLERY_COMPOSED_EXTENSION_BYTES * 2;

/// The memory that all buffered metadata shares, where nothing else is configured.
pub const DEFAULT_PROXY_METADATA_BUDGET_BYTES: usize = 1024 * 1024 * 1024;

/// How many wire bytes a document may have, and what it is charged.
#[derive(Debug, Clone, Copy, PartialEq, Eq, Structural)]
pub struct MetadataWorkingSetLimits {
    pub max_bytes: usize,
    pub reservation_bytes: usize,
}

/// The limits of one gallery document.
pub fn metadata_limits() -> (limits: MetadataWorkingSetLimits)
    ensures
        limits.max_bytes == GALLERY_METADATA_MAX_BYTES,
        limits.reservation_bytes == GALLERY_METADATA_BUDGET_RESERVATION_BYTES,
{
    MetadataWorkingSetLimits {
        max_bytes: GALLERY_METADATA_MAX_BYTES,
        reservation_bytes: GALLERY_METADATA_BUDGET_RESERVATION_BYTES,
    }
}

/// The limits of one version history.
pub fn skeleton_limits() -> (limits: MetadataWorkingSetLimits)
    ensures
        limits.max_bytes == GALLERY_SKELETON_MAX_BYTES,
        limits.reservation_bytes == GALLERY_SKELETON_BUDGET_RESERVATION_BYTES,
{
    MetadataWorkingSetLimits {
        max_bytes: GALLERY_SKELETON_MAX_BYTES,
        reservation_bytes: GALLERY_SKELETON_BUDGET_RESERVATION_BYTES,
    }
}

/// A budget of bytes, some of them reserved.
#[derive(Debug)]
pub struct ProxyMetadataBudget {
    total: usize,
    reserved: usize,
}

/// Bytes reserved from a budget, to be given back.
#[derive(Debug)]
pub struct MetadataPermit {
    bytes: usize,
}

impl MetadataPermit {
    /// The bytes reserved.
    pub closed spec fn bytes(&self) -> nat {
        self.bytes as nat
    }
}

impl ProxyMetadataBudget {
    /// The bytes of the budget.
    pub closed spec fn total(&self) -> nat {
        self.total as nat
    }

    /// The bytes of it that are reserved.
    pub closed spec fn reserved(&self) -> nat {
        self.reserved as nat
    }

    /// Reservations never exceed the budget.
    pub open spec fn within(&self) -> bool {
        self.reserved() <= self.total()
    }

    /// A budget of `total` bytes, none of them reserved.
    pub fn new(total: usize) -> (budget: ProxyMetadataBudget)
        ensures
            budget.within(),
            budget.total() == total,
            budget.reserved() == 0,
    {
        ProxyMetadataBudget { total, reserved: 0 }
    }

    /// Reserves `bytes`, where that many are free.
    pub fn try_reserve(&mut self, bytes: usize) -> (permit: Option<MetadataPermit>)
        requires
            old(self).within(),
        ensures
            final(self).within(),
            final(self).total() == old(self).total(),
            match permit {
                Some(permit) => {
                    &&& permit.bytes() == bytes
                    &&& final(self).reserved() == old(self).reserved() + bytes
                },
                None => {
                    &&& old(self).reserved() + bytes > old(self).total()
                    &&& *final(self) == *old(self)
                },
            },
    {
        if bytes > self.total - self.reserved {
            return None;
        }
        self.reserved = self.reserved + bytes;
        Some(MetadataPermit { bytes })
    }

    /// Gives back what a permit reserved.
    pub fn release(&mut self, permit: MetadataPermit)
        requires
            old(self).within(),
            permit.bytes() <= old(self).reserved(),
        ensures
            final(self).within(),
            final(self).total() == old(self).total(),
            final(self).reserved() == old(self).reserved() - permit.bytes(),
    {
        self.reserved = self.reserved - permit.bytes;
    }
}

} // verus!
