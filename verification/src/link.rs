use vstd::prelude::*;

verus! {

/// Policy for materializing a stored object at a destination path, as an
/// ordered fallback chain of decreasing efficiency: a copy-on-write
/// reflink is always tried first; what may follow depends on the policy.
#[derive(Debug, Clone, Copy, PartialEq, Eq, Structural)]
pub enum LinkStrategy {
    /// Reflink or fail.
    ReflinkOnly,
    /// Reflink, else hardlink, else fail.
    ReflinkOrHardlink,
    /// Reflink, else hardlink, else a full byte copy.
    ReflinkOrCopy,
}

/// Which method actually materialized the file, so callers can report
/// whether deduplication was achieved.
#[derive(Debug, Clone, Copy, PartialEq, Eq, Structural)]
pub enum LinkResult {
    Reflink,
    Hardlink,
    Copy,
}

/// Why no method was allowed to succeed, naming the violated policy.
#[derive(Debug, Clone, Copy, PartialEq, Eq, Structural)]
pub enum LinkError {
    /// Reflink failed and the policy allows no fallback.
    ReflinkFailedNoFallback,
    /// Reflink and hardlink failed and the policy forbids a copy.
    HardlinkFailedNoCopy,
    /// Even the full byte copy failed.
    CopyFailed,
}

/// What the filesystem under the destination supports: whether each
/// operation would succeed there.
#[derive(Debug, Clone, Copy, PartialEq, Eq, Structural)]
pub struct LinkCapabilities {
    pub reflink: bool,
    pub hardlink: bool,
    pub copy: bool,
}

/// The method that the fallback chain settles on under the given
/// capabilities, or the error that ends it.
pub open spec fn spec_link_outcome(st: LinkStrategy, c: LinkCapabilities) -> Result<
    LinkResult,
    LinkError,
> {
    if c.reflink {
        Ok(LinkResult::Reflink)
    } else if st == LinkStrategy::ReflinkOnly {
        Err(LinkError::ReflinkFailedNoFallback)
    } else if c.hardlink {
        Ok(LinkResult::Hardlink)
    } else if st == LinkStrategy::ReflinkOrCopy {
        if c.copy {
            Ok(LinkResult::Copy)
        } else {
            Err(LinkError::CopyFailed)
        }
    } else {
        Err(LinkError::HardlinkFailedNoCopy)
    }
}

/// The attempt that follows a failed one, or the error that the policy
/// prescribes instead.  A driver that performs real link operations walks
/// this chain: try, and on failure ask what comes next.
pub open spec fn spec_next_attempt(st: LinkStrategy, failed: LinkResult) -> Result<
    LinkResult,
    LinkError,
> {
    match failed {
        LinkResult::Reflink => {
            if st == LinkStrategy::ReflinkOnly {
                Err(LinkError::ReflinkFailedNoFallback)
            } else {
                Ok(LinkResult::Hardlink)
            }
        },
        LinkResult::Hardlink => {
            if st == LinkStrategy::ReflinkOrCopy {
                Ok(LinkResult::Copy)
            } else {
                Err(LinkError::HardlinkFailedNoCopy)
            }
        },
        LinkResult::Copy => Err(LinkError::CopyFailed),
    }
}

impl LinkStrategy {
    /// The first attempt of every chain: the reflink.
    pub fn first_attempt(&self) -> (r: LinkResult)
        ensures
            r == LinkResult::Reflink,
    {
        LinkResult::Reflink
    }

    /// The attempt after a failed one under this policy.
    pub fn next_attempt(&self, failed: LinkResult) -> (r: Result<LinkResult, LinkError>)
        ensures
            r == spec_next_attempt(*self, failed),
    {
        match failed {
            LinkResult::Reflink => {
                if *self == LinkStrategy::ReflinkOnly {
                    Err(LinkError::ReflinkFailedNoFallback)
                } else {
                    Ok(LinkResult::Hardlink)
                }
            },
            LinkResult::Hardlink => {
                if *self == LinkStrategy::ReflinkOrCopy {
                    Ok(LinkResult::Copy)
                } else {
                    Err(LinkError::HardlinkFailedNoCopy)
                }
            },
            LinkResult::Copy => Err(LinkError::CopyFailed),
        }
    }

    /// The outcome of the whole chain under the given capabilities.
    pub fn link(&self, caps: &LinkCapabilities) -> (r: Result<LinkResult, LinkError>)
        ensures
            r == spec_link_outcome(*self, *caps),
    {
        if caps.reflink {
            return Ok(LinkResult::Reflink);
        }
        match self.next_attempt(LinkResult::Reflink) {
            Err(e) => Err(e),
            Ok(LinkResult::Hardlink) => {
                if caps.hardlink {
                    return Ok(LinkResult::Hardlink);
                }
                match self.next_attempt(LinkResult::Hardlink) {
                    Err(e) => Err(e),
                    Ok(LinkResult::Copy) => {
                        if caps.copy {
                            Ok(LinkResult::Copy)
                        } else {
                            Err(LinkError::CopyFailed)
                        }
                    },
                    Ok(r) => Ok(r),
                }
            },
            Ok(r) => Ok(r),
        }
    }
}

/// Fallback ordering: on a filesystem where reflink is unsupported but
/// hardlink is, the copy-allowing policy reports a hardlink, never a
/// copy.
pub proof fn lemma_fallback_prefers_hardlink(c: LinkCapabilities)
    requires
        !c.reflink,
        c.hardlink,
    ensures
        spec_link_outcome(LinkStrategy::ReflinkOrCopy, c) == Ok::<LinkResult, LinkError>(
            LinkResult::Hardlink,
        ),
{
}

/// A copy is attempted only after the hardlink has failed, and only under
/// the copy-allowing policy.
pub proof fn lemma_copy_only_after_hardlink(st: LinkStrategy, failed: LinkResult)
    ensures
        spec_next_attempt(st, failed) == Ok::<LinkResult, LinkError>(LinkResult::Copy)
            <==> failed == LinkResult::Hardlink && st == LinkStrategy::ReflinkOrCopy,
{
}

} // verus!
