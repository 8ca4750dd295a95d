//! Page classes, the flags a mapping of each class is requested with, and the
//! platform's default page size.

use nix::errno::Errno;
use nix::unistd::{sysconf, SysconfVar};
use vstd::prelude::*;

use crate::layout::max_request_size;

verus! {

/// The size of a huge page in bytes.
pub const HUGE_PAGE_BYTES: usize = 2 * 1024 * 1024;

/// `nix::errno::Errno`, the error number that a failed system call reports.
/// Nothing is known of its values: an error number is only carried through.
#[verifier::external_type_specification]
#[verifier::external_body]
pub struct ExErrno(Errno);

/// Why the platform's default page size could not be established.
#[derive(Debug)]
pub enum PageSizeError {
    /// The system has no value for its page size.
    NoValue,
    /// The query itself failed.
    Failed(Errno),
    /// The system reported a page size that is not positive, or that is more
    /// than half the address space.
    Invalid(i64),
}

/// The default page size for the platform: positive, and at most half the
/// address space.
#[derive(Debug, Clone, Copy)]
pub struct DefaultPageSize {
    pub(crate) bytes: usize,
}

/// Asks the system for its page size.
///
/// Calls `nix::unistd::sysconf` with `SysconfVar::PAGE_SIZE` and hands its
/// answer on with the value widened to `i64`. The answer depends on the
/// machine, so nothing is claimed of it.
#[verifier::external_body]
fn sysconf_page_size() -> (r: Result<Option<i64>, Errno>) {
    match sysconf(SysconfVar::PAGE_SIZE) {
        Ok(Some(val)) => Ok(Some(i64::from(val))),
        Ok(None) => Ok(None),
        Err(e) => Err(e),
    }
}

impl DefaultPageSize {
    /// A default page size is positive and at most half the address space.
    #[verifier::type_invariant]
    pub open(crate) spec fn wf(self) -> bool {
        0 < self.bytes <= max_request_size()
    }

    /// The page size in bytes.
    pub open(crate) spec fn spec_bytes(&self) -> usize {
        self.bytes
    }

    /// Whether `val` can serve as a page size.
    pub open spec fn valid(val: int) -> bool {
        0 < val <= max_request_size()
    }

    /// What an answer of the system's page-size query amounts to.
    pub open spec fn spec_from_sysconf(raw: Result<Option<i64>, Errno>) -> Result<
        usize,
        PageSizeError,
    > {
        match raw {
            Ok(Some(val)) => if Self::valid(val as int) {
                Ok(val as usize)
            } else {
                Err(PageSizeError::Invalid(val))
            },
            Ok(None) => Err(PageSizeError::NoValue),
            Err(e) => Err(PageSizeError::Failed(e)),
        }
    }

    /// A default page size of `bytes` bytes, or `None` when `bytes` is zero or
    /// more than half the address space.
    pub fn new(bytes: usize) -> (r: Option<DefaultPageSize>)
        ensures
            r is Some <==> Self::valid(bytes as int),
            r matches Some(d) ==> d.wf() && d.spec_bytes() == bytes,
    {
        if 0 < bytes && bytes <= usize::MAX / 2 {
            Some(DefaultPageSize { bytes })
        } else {
            None
        }
    }

    /// Turns an answer of the system's page-size query into a page size.
    ///
    /// A value is accepted when it is positive and at most half the address
    /// space; a missing value and a failed query are reported as such.
    pub fn from_sysconf(raw: Result<Option<i64>, Errno>) -> (r: Result<
        DefaultPageSize,
        PageSizeError,
    >)
        ensures
            match Self::spec_from_sysconf(raw) {
                Ok(bytes) => r matches Ok(d) && d.wf() && d.spec_bytes() == bytes,
                Err(e) => r == Err::<DefaultPageSize, PageSizeError>(e),
            },
    {
        match raw {
            Ok(Some(val)) => {
                if 0 < val && val as u64 <= (usize::MAX / 2) as u64 {
                    Ok(DefaultPageSize { bytes: val as usize })
                } else {
                    Err(PageSizeError::Invalid(val))
                }
            },
            Ok(None) => Err(PageSizeError::NoValue),
            Err(e) => Err(PageSizeError::Failed(e)),
        }
    }

    /// Queries the system for its page size.
    ///
    /// The answer is the system's, so success is not promised. Whatever the
    /// system answered, the result is what `from_sysconf` makes of that
    /// answer: a page size is the value that the system gave, and is valid;
    /// a value that is reported as invalid is not valid.
    pub fn query() -> (r: Result<DefaultPageSize, PageSizeError>)
        ensures
            (exists|answer: Result<Option<i64>, Errno>| Self::made_of(answer, r)),
            r matches Ok(d) ==> d.wf(),
            r matches Err(PageSizeError::Invalid(val)) ==> !Self::valid(val as int),
    {
        let answer = sysconf_page_size();
        let r = Self::from_sysconf(answer);
        assert(Self::made_of(answer, r));
        r
    }

    /// Whether `r` is what the answer `raw` of the system's page-size query
    /// amounts to: the page size of its value, or the error that tells why
    /// there is none.
    pub open spec fn made_of(
        raw: Result<Option<i64>, Errno>,
        r: Result<DefaultPageSize, PageSizeError>,
    ) -> bool {
        match Self::spec_from_sysconf(raw) {
            Ok(bytes) => r matches Ok(d) && d.wf() && d.spec_bytes() == bytes,
            Err(e) => r == Err::<DefaultPageSize, PageSizeError>(e),
        }
    }

    /// The page size in bytes.
    #[verifier::when_used_as_spec(spec_bytes)]
    pub fn bytes(&self) -> (r: usize)
        ensures
            r == self.spec_bytes(),
            Self::valid(r as int),
    {
        proof {
            use_type_invariant(self);
        }
        self.bytes
    }
}

/// The flags that a mapping is requested with.
#[derive(Debug, Clone, Copy, PartialEq, Eq, Structural)]
pub struct MapFlags {
    /// The mapping is backed by no file.
    pub anonymous: bool,
    /// The mapping is private to the process.
    pub private: bool,
    /// The mapping uses huge pages.
    pub huge_tlb: bool,
    /// The huge pages are 2MB pages.
    pub huge_2mb: bool,
}

/// Available page sizes
#[derive(Debug, Clone, Copy, PartialEq, Eq, Structural)]
pub enum PageSize {
    SizeDefault,
    Size2m,
}

impl PageSize {
    /// The size in bytes of a page of this class, on a platform whose default
    /// page size is `default_bytes`.
    pub open spec fn spec_bytes(&self, default_page: &DefaultPageSize) -> usize {
        match self {
            PageSize::SizeDefault => default_page.spec_bytes(),
            PageSize::Size2m => HUGE_PAGE_BYTES,
        }
    }

    /// The flags that a mapping of this class is requested with: every
    /// mapping is anonymous and private, and only the huge class asks for
    /// huge pages, of 2MB.
    pub open spec fn spec_map_flags(&self) -> MapFlags {
        MapFlags {
            anonymous: true,
            private: true,
            huge_tlb: *self == PageSize::Size2m,
            huge_2mb: *self == PageSize::Size2m,
        }
    }

    /// The size in bytes of a page of this class.
    #[verifier::when_used_as_spec(spec_bytes)]
    pub fn bytes(&self, default_page: &DefaultPageSize) -> (r: usize)
        ensures
            r == self.spec_bytes(default_page),
            DefaultPageSize::valid(r as int),
    {
        match self {
            PageSize::SizeDefault => default_page.bytes(),
            PageSize::Size2m => HUGE_PAGE_BYTES,
        }
    }

    /// The flags that a mapping of this class is requested with.
    #[verifier::when_used_as_spec(spec_map_flags)]
    pub fn map_flags(&self) -> (r: MapFlags)
        ensures
            r == self.spec_map_flags(),
    {
        match self {
            PageSize::SizeDefault => MapFlags {
                anonymous: true,
                private: true,
                huge_tlb: false,
                huge_2mb: false,
            },
            PageSize::Size2m => MapFlags {
                anonymous: true,
                private: true,
                huge_tlb: true,
                huge_2mb: true,
            },
        }
    }
}

} // verus!
