//! The configuration of a connection.

use std::path::PathBuf;
use vstd::prelude::*;
use crate::number::{decimal_value, parse_decimal};
use crate::text::chars_of;

verus! {

/// `std::path::PathBuf`, carried through as it is.
#[verifier::external_type_specification]
#[verifier::external_body]
pub struct ExPathBuf(PathBuf);

/// `PathBuf::clone` gives a path equal to the one it was called on.
pub assume_specification[ <PathBuf as Clone>::clone ](path: &PathBuf) -> (copy: PathBuf)
    ensures
        copy == *path,
;

/// The read chunk size that stands in for a configured size of zero.
pub const DEFAULT_READ_BUFFER_SIZE: usize = 4096;

/// The settings under which one connection is read. A connection works on
/// its own copy.
#[derive(Debug)]
pub struct Options {
    /// Whether the socket is to send small writes at once.
    pub no_delay: bool,
    /// How long one read may take, in milliseconds.
    pub read_timeout_miliseconds: u64,
    /// The directory that later layers serve files from.
    pub root_path: PathBuf,
    /// The size of the chunk that one read fills; zero asks for the default.
    pub read_buffer_size: usize,
    /// How many timeouts or short closes are borne before reading stops.
    pub read_max_retry: u8,
    /// Up to which offset of the buffer a failure message quotes the data
    /// received; zero asks for no quote.
    pub read_imcomplete_size: usize,
}

/// Settings given as text, as an environment holds them. A value that is
/// absent or cannot be read leaves the setting as it is.
pub struct Overrides {
    /// `true` or `false`.
    pub no_delay: Option<String>,
    /// An unsigned decimal of 64 bits.
    pub read_timeout_miliseconds: Option<String>,
    /// The directory to serve from.
    pub root_path: Option<PathBuf>,
    /// An unsigned decimal that fits the machine word.
    pub read_buffer_size: Option<String>,
    /// An unsigned decimal of 8 bits.
    pub read_max_retry: Option<String>,
    /// An unsigned decimal that fits the machine word.
    pub read_imcomplete_size: Option<String>,
}

/// The truth value that `text` spells: exactly `true` or `false`.
pub open spec fn bool_value(text: Seq<char>) -> Option<bool> {
    if text == "true"@ {
        Some(true)
    } else if text == "false"@ {
        Some(false)
    } else {
        None
    }
}

/// `current`, or the truth value that `text` spells where it spells one.
pub open spec fn overridden_bool(current: bool, text: Option<String>) -> bool {
    match text {
        Some(t) => match bool_value(t@) {
            Some(b) => b,
            None => current,
        },
        None => current,
    }
}

/// `current`, or the number of at most `max` that `text` spells where it
/// spells one.
pub open spec fn overridden_number(current: nat, text: Option<String>, max: nat) -> nat {
    match text {
        Some(t) => match decimal_value(t@, max) {
            Some(v) => v,
            None => current,
        },
        None => current,
    }
}

fn override_bool(current: bool, text: &Option<String>) -> (value: bool)
    ensures
        value == overridden_bool(current, *text),
{
    match text {
        Some(t) => {
            if *t == String::from_str("true") {
                true
            } else if *t == String::from_str("false") {
                false
            } else {
                current
            }
        },
        None => current,
    }
}

fn override_number(current: u64, text: &Option<String>, max: u64) -> (value: u64)
    requires
        current <= max,
    ensures
        value == overridden_number(current as nat, *text, max as nat),
        value <= max,
{
    match text {
        Some(t) => {
            let chars = chars_of(t.as_str());
            match parse_decimal(chars.as_slice(), max) {
                Some(v) => v,
                None => current,
            }
        },
        None => current,
    }
}

impl Clone for Options {
    fn clone(&self) -> (copy: Self)
        ensures
            copy == *self,
    {
        Options {
            no_delay: self.no_delay,
            read_timeout_miliseconds: self.read_timeout_miliseconds,
            root_path: self.root_path.clone(),
            read_buffer_size: self.read_buffer_size,
            read_max_retry: self.read_max_retry,
            read_imcomplete_size: self.read_imcomplete_size,
        }
    }
}

impl Options {
    /// The default settings, to serve from `root_path`: no delay, reads of
    /// 4096 bytes that may take three seconds each, three retries, and no
    /// quote of the data in failure messages.
    pub fn new(root_path: PathBuf) -> (options: Options)
        ensures
            options == (Options {
                no_delay: true,
                read_timeout_miliseconds: 3000,
                root_path,
                read_buffer_size: 4096,
                read_max_retry: 3,
                read_imcomplete_size: 0,
            }),
    {
        Options {
            no_delay: true,
            read_timeout_miliseconds: 3000,
            root_path,
            read_buffer_size: 4096,
            read_max_retry: 3,
            read_imcomplete_size: 0,
        }
    }

    /// These settings with each override applied that is present and can be
    /// read. The others stay as they are.
    pub fn with_overrides(self, overrides: Overrides) -> (options: Options)
        ensures
            options.no_delay == overridden_bool(self.no_delay, overrides.no_delay),
            options.read_timeout_miliseconds == overridden_number(
                self.read_timeout_miliseconds as nat,
                overrides.read_timeout_miliseconds,
                u64::MAX as nat,
            ),
            options.root_path == match overrides.root_path {
                Some(path) => path,
                None => self.root_path,
            },
            options.read_buffer_size == overridden_number(
                self.read_buffer_size as nat,
                overrides.read_buffer_size,
                usize::MAX as nat,
            ),
            options.read_max_retry == overridden_number(
                self.read_max_retry as nat,
                overrides.read_max_retry,
                u8::MAX as nat,
            ),
            options.read_imcomplete_size == overridden_number(
                self.read_imcomplete_size as nat,
                overrides.read_imcomplete_size,
                usize::MAX as nat,
            ),
    {
        let no_delay = override_bool(self.no_delay, &overrides.no_delay);
        let read_timeout_miliseconds = override_number(
            self.read_timeout_miliseconds,
            &overrides.read_timeout_miliseconds,
            u64::MAX,
        );
        let read_buffer_size = override_number(
            self.read_buffer_size as u64,
            &overrides.read_buffer_size,
            usize::MAX as u64,
        ) as usize;
        let read_max_retry = override_number(
            self.read_max_retry as u64,
            &overrides.read_max_retry,
            u8::MAX as u64,
        ) as u8;
        let read_imcomplete_size = override_number(
            self.read_imcomplete_size as u64,
            &overrides.read_imcomplete_size,
            usize::MAX as u64,
        ) as usize;
        let root_path = match overrides.root_path {
            Some(path) => path,
            None => self.root_path,
        };
        Options {
            no_delay,
            read_timeout_miliseconds,
            root_path,
            read_buffer_size,
            read_max_retry,
            read_imcomplete_size,
        }
    }

    /// The size of the chunk that one read fills: the configured size, or
    /// 4096 where that is zero.
    pub fn chunk_size(&self) -> (size: usize)
        ensures
            size == if self.read_buffer_size == 0 {
                DEFAULT_READ_BUFFER_SIZE
            } else {
                self.read_buffer_size
            },
            size > 0,
    {
        if self.read_buffer_size == 0 {
            DEFAULT_READ_BUFFER_SIZE
        } else {
            self.read_buffer_size
        }
    }

    /// Switches the no-delay setting.
    pub fn set_no_delay(&mut self, no_delay: bool)
        ensures
            *final(self) == (Options { no_delay, ..*old(self) }),
    {
        self.no_delay = no_delay;
    }
}

} // verus!
