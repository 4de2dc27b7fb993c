//! The shared error taxonomy: the closed set of error kinds shown to the
//! user, and the fixed translation table from the kernel's raw status codes
//! into it. Codes the table does not know degrade to an uncategorized kind;
//! translation never fails.

use vstd::prelude::*;

verus! {

/// The kernel status code for a missing object; an empty `PATH` search
/// reports it.
pub const STATUS_DOES_NOT_EXIST: i64 = -21;

/// One kind per class of error the shell can report.
#[derive(Copy, Clone, Debug, Hash, PartialEq, Eq, Structural)]
#[non_exhaustive]
pub enum ErrorKind {
    NotFound,
    PermissionDenied,
    ConnectionRefused,
    ConnectionReset,
    HostUnreachable,
    NetworkUnreachable,
    ConnectionAborted,
    NotConnected,
    AddrInUse,
    AddrNotAvailable,
    NetworkDown,
    BrokenPipe,
    AlreadyExists,
    WouldBlock,
    NotADirectory,
    IsADirectory,
    DirectoryNotEmpty,
    ReadOnlyFilesystem,
    FilesystemLoop,
    StaleNetworkFileHandle,
    InvalidInput,
    InvalidData,
    TimedOut,
    WriteZero,
    StorageFull,
    NotSeekable,
    QuotaExceeded,
    FileTooLarge,
    ResourceBusy,
    ExecutableFileBusy,
    Deadlock,
    CrossesDevices,
    TooManyLinks,
    InvalidFilename,
    ArgumentListTooLong,
    Interrupted,
    Unsupported,
    UnexpectedEof,
    OutOfMemory,
    InProgress,
    InvalidState,
    Other,
    __Uncategorized,
}

/// The fixed table from a raw kernel status code to an error kind.
/// Nonnegative codes are successes and carry no more specific kind; each
/// known negative code has one entry; anything else is uncategorized.
pub open spec fn kind_of_status(code: int) -> ErrorKind {
    if code >= 0 {
        ErrorKind::Other
    } else if code == -1 {
        ErrorKind::PermissionDenied
    } else if code == -2 {
        ErrorKind::InvalidInput
    } else if code == -3 {
        ErrorKind::InvalidInput
    } else if code == -4 {
        ErrorKind::ResourceBusy
    } else if code == -5 {
        ErrorKind::InvalidInput
    } else if code == -6 {
        ErrorKind::InvalidData
    } else if code == -7 {
        ErrorKind::InvalidInput
    } else if code == -8 {
        ErrorKind::QuotaExceeded
    } else if code == -9 {
        ErrorKind::InvalidState
    } else if code == -10 {
        ErrorKind::Unsupported
    } else if code == -11 {
        ErrorKind::OutOfMemory
    } else if code == -12 {
        ErrorKind::Unsupported
    } else if code == -13 {
        ErrorKind::WouldBlock
    } else if code == -15 {
        ErrorKind::TimedOut
    } else if code == -16 {
        ErrorKind::Interrupted
    } else if code == -18 {
        ErrorKind::Deadlock
    } else if code == -19 {
        ErrorKind::Unsupported
    } else if code == -20 {
        ErrorKind::InProgress
    } else if code == -21 {
        ErrorKind::NotFound
    } else if code == -22 {
        ErrorKind::AlreadyExists
    } else if code == -23 {
        ErrorKind::InvalidData
    } else if code == -24 {
        ErrorKind::WouldBlock
    } else if code == -25 {
        ErrorKind::StorageFull
    } else if code == -26 {
        ErrorKind::ResourceBusy
    } else if code == -27 {
        ErrorKind::FilesystemLoop
    } else if code == -29 {
        ErrorKind::ConnectionReset
    } else if code == -30 {
        ErrorKind::ConnectionAborted
    } else if code == -31 {
        ErrorKind::AddrNotAvailable
    } else if code == -33 {
        ErrorKind::InvalidInput
    } else if code == -34 {
        ErrorKind::PermissionDenied
    } else if code == -35 {
        ErrorKind::NotFound
    } else {
        ErrorKind::__Uncategorized
    }
}

impl ErrorKind {
    /// The kind no more specific information exists for.
    pub fn uncategorized() -> (r: ErrorKind)
        ensures
            r == ErrorKind::__Uncategorized,
    {
        ErrorKind::__Uncategorized
    }

    /// Translates a raw kernel status code through the fixed table; never
    /// panics, whatever the code.
    pub fn from_raw_os_error(code: i64) -> (r: ErrorKind)
        ensures
            r == kind_of_status(code as int),
    {
        if code >= 0 {
            ErrorKind::Other
        } else if code == -1 {
            ErrorKind::PermissionDenied
        } else if code == -2 {
            ErrorKind::InvalidInput
        } else if code == -3 {
            ErrorKind::InvalidInput
        } else if code == -4 {
            ErrorKind::ResourceBusy
        } else if code == -5 {
            ErrorKind::InvalidInput
        } else if code == -6 {
            ErrorKind::InvalidData
        } else if code == -7 {
            ErrorKind::InvalidInput
        } else if code == -8 {
            ErrorKind::QuotaExceeded
        } else if code == -9 {
            ErrorKind::InvalidState
        } else if code == -10 {
            ErrorKind::Unsupported
        } else if code == -11 {
            ErrorKind::OutOfMemory
        } else if code == -12 {
            ErrorKind::Unsupported
        } else if code == -13 {
            ErrorKind::WouldBlock
        } else if code == -15 {
            ErrorKind::TimedOut
        } else if code == -16 {
            ErrorKind::Interrupted
        } else if code == -18 {
            ErrorKind::Deadlock
        } else if code == -19 {
            ErrorKind::Unsupported
        } else if code == -20 {
            ErrorKind::InProgress
        } else if code == -21 {
            ErrorKind::NotFound
        } else if code == -22 {
            ErrorKind::AlreadyExists
        } else if code == -23 {
            ErrorKind::InvalidData
        } else if code == -24 {
            ErrorKind::WouldBlock
        } else if code == -25 {
            ErrorKind::StorageFull
        } else if code == -26 {
            ErrorKind::ResourceBusy
        } else if code == -27 {
            ErrorKind::FilesystemLoop
        } else if code == -29 {
            ErrorKind::ConnectionReset
        } else if code == -30 {
            ErrorKind::ConnectionAborted
        } else if code == -31 {
            ErrorKind::AddrNotAvailable
        } else if code == -33 {
            ErrorKind::InvalidInput
        } else if code == -34 {
            ErrorKind::PermissionDenied
        } else if code == -35 {
            ErrorKind::NotFound
        } else {
            ErrorKind::__Uncategorized
        }
    }

    /// The user-facing text of this kind; presentation only.
    pub fn message(&self) -> (r: &'static str)
        ensures
            r@.len() > 0,
    {
        match self {
            ErrorKind::NotFound => {
                proof {
                    reveal_strlit("Not Found");
                }
                "Not Found"
            },
            ErrorKind::PermissionDenied => {
                proof {
                    reveal_strlit("Permission Denied");
                }
                "Permission Denied"
            },
            ErrorKind::ConnectionRefused => {
                proof {
                    reveal_strlit("Connection Refused");
                }
                "Connection Refused"
            },
            ErrorKind::ConnectionReset => {
                proof {
                    reveal_strlit("Connection Reset");
                }
                "Connection Reset"
            },
            ErrorKind::HostUnreachable => {
                proof {
                    reveal_strlit("Host Unreachable");
                }
                "Host Unreachable"
            },
            ErrorKind::NetworkUnreachable => {
                proof {
                    reveal_strlit("Network Unreachable");
                }
                "Network Unreachable"
            },
            ErrorKind::ConnectionAborted => {
                proof {
                    reveal_strlit("Connection Aborted");
                }
                "Connection Aborted"
            },
            ErrorKind::NotConnected => {
                proof {
                    reveal_strlit("Not Connected");
                }
                "Not Connected"
            },
            ErrorKind::AddrInUse => {
                proof {
                    reveal_strlit("Address in Use");
                }
                "Address in Use"
            },
            ErrorKind::AddrNotAvailable => {
                proof {
                    reveal_strlit("Address Not Available");
                }
                "Address Not Available"
            },
            ErrorKind::NetworkDown => {
                proof {
                    reveal_strlit("Network Down");
                }
                "Network Down"
            },
            ErrorKind::BrokenPipe => {
                proof {
                    reveal_strlit("Broken Pipe");
                }
                "Broken Pipe"
            },
            ErrorKind::AlreadyExists => {
                proof {
                    reveal_strlit("Already Exists");
                }
                "Already Exists"
            },
            ErrorKind::WouldBlock => {
                proof {
                    reveal_strlit("Would Block");
                }
                "Would Block"
            },
            ErrorKind::NotADirectory => {
                proof {
                    reveal_strlit("Not A Directory");
                }
                "Not A Directory"
            },
            ErrorKind::IsADirectory => {
                proof {
                    reveal_strlit("Is A Directory");
                }
                "Is A Directory"
            },
            ErrorKind::DirectoryNotEmpty => {
                proof {
                    reveal_strlit("Directory Not Empty");
                }
                "Directory Not Empty"
            },
            ErrorKind::ReadOnlyFilesystem => {
                proof {
                    reveal_strlit("Read Only Filesystem");
                }
                "Read Only Filesystem"
            },
            ErrorKind::FilesystemLoop => {
                proof {
                    reveal_strlit("Filesystem Loop");
                }
                "Filesystem Loop"
            },
            ErrorKind::StaleNetworkFileHandle => {
                proof {
                    reveal_strlit("Stale Remote Object");
                }
                "Stale Remote Object"
            },
            ErrorKind::InvalidInput => {
                proof {
                    reveal_strlit("Invalid Input");
                }
                "Invalid Input"
            },
            ErrorKind::InvalidData => {
                proof {
                    reveal_strlit("Invalid Data");
                }
                "Invalid Data"
            },
            ErrorKind::TimedOut => {
                proof {
                    reveal_strlit("Timed Out");
                }
                "Timed Out"
            },
            ErrorKind::WriteZero => {
                proof {
                    reveal_strlit("Write returned 0");
                }
                "Write returned 0"
            },
            ErrorKind::StorageFull => {
                proof {
                    reveal_strlit("Storage Full");
                }
                "Storage Full"
            },
            ErrorKind::NotSeekable => {
                proof {
                    reveal_strlit("Not Seekable");
                }
                "Not Seekable"
            },
            ErrorKind::QuotaExceeded => {
                proof {
                    reveal_strlit("Quota Exceeded");
                }
                "Quota Exceeded"
            },
            ErrorKind::FileTooLarge => {
                proof {
                    reveal_strlit("File Too Large");
                }
                "File Too Large"
            },
            ErrorKind::ResourceBusy => {
                proof {
                    reveal_strlit("Resource Busy");
                }
                "Resource Busy"
            },
            ErrorKind::ExecutableFileBusy => {
                proof {
                    reveal_strlit("Text Busy");
                }
                "Text Busy"
            },
            ErrorKind::Deadlock => {
                proof {
                    reveal_strlit("Deadlock (Avoided)");
                }
                "Deadlock (Avoided)"
            },
            ErrorKind::CrossesDevices => {
                proof {
                    reveal_strlit("Crosses Devices");
                }
                "Crosses Devices"
            },
            ErrorKind::TooManyLinks => {
                proof {
                    reveal_strlit("Too Many (Hard) Links");
                }
                "Too Many (Hard) Links"
            },
            ErrorKind::InvalidFilename => {
                proof {
                    reveal_strlit("Invalid Filename");
                }
                "Invalid Filename"
            },
            ErrorKind::ArgumentListTooLong => {
                proof {
                    reveal_strlit("Argument List Too Long");
                }
                "Argument List Too Long"
            },
            ErrorKind::Interrupted => {
                proof {
                    reveal_strlit("Interrupted");
                }
                "Interrupted"
            },
            ErrorKind::Unsupported => {
                proof {
                    reveal_strlit("Unsupported");
                }
                "Unsupported"
            },
            ErrorKind::UnexpectedEof => {
                proof {
                    reveal_strlit("Unexpected EOF");
                }
                "Unexpected EOF"
            },
            ErrorKind::OutOfMemory => {
                proof {
                    reveal_strlit("Out Of Memory");
                }
                "Out Of Memory"
            },
            ErrorKind::InProgress => {
                proof {
                    reveal_strlit("In Progress");
                }
                "In Progress"
            },
            ErrorKind::InvalidState => {
                proof {
                    reveal_strlit("Invalid Object State");
                }
                "Invalid Object State"
            },
            ErrorKind::Other => {
                proof {
                    reveal_strlit("Other Error");
                }
                "Other Error"
            },
            ErrorKind::__Uncategorized => {
                proof {
                    reveal_strlit("(Uncategorized)");
                }
                "(Uncategorized)"
            },
        }
    }
}

} // verus!
