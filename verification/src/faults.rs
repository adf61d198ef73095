//! The fault taxonomy: the closed set of error conditions the simulator may
//! inject, the error variants surfaced at the I/O facade boundary, and the
//! per-kind injection probabilities.

use vstd::prelude::*;

verus! {

/// Faults that can strike the simulated file once it is open.
#[derive(Clone, Copy, PartialEq, Eq, Structural, Debug, Hash)]
pub enum FileFaultType {
    FileReadFailure,
    FileWriteFailure,
    FileSizeExceededFailure,
    FileMetadataSyncFailure,
}

/// Faults that can strike any operation of the I/O facade.  File faults form
/// a nested subset of their own.
#[derive(Clone, Copy, PartialEq, Eq, Structural, Debug, Hash)]
pub enum FaultType {
    KafkaConnectionFailure,
    KafkaReadFailure,
    RedisConnectionFailure,
    RedisReadFailure,
    FileOpenFailure,
    FileFaultType(FileFaultType),
}

/// Errors surfaced at the I/O facade boundary.
#[derive(Clone, Copy, PartialEq, Eq, Structural, Debug, Hash)]
pub enum Errors {
    KafkaConnectionError,
    NoKafkaMessage,
    RedisConnectionError,
    RedisKeyRetrievalError,
    FileOpenError,
    FileReadError,
    FileWriteError,
    FileSyncError,
}

impl FaultType {
    /// The glyph the dashboard shows for a fault of this kind.
    pub open spec fn spec_symbol(self) -> Seq<char> {
        match self {
            FaultType::KafkaConnectionFailure => "⚔️"@,
            FaultType::RedisConnectionFailure => "🛡️"@,
            FaultType::KafkaReadFailure => "🔥"@,
            FaultType::RedisReadFailure => "❄️"@,
            FaultType::FileOpenFailure => "💥"@,
            FaultType::FileFaultType(_) => "⚡"@,
        }
    }

    pub fn to_symbol(&self) -> (r: &'static str)
        ensures
            r@ == self.spec_symbol(),
    {
        match self {
            FaultType::KafkaConnectionFailure => "⚔️",
            FaultType::RedisConnectionFailure => "🛡️",
            FaultType::KafkaReadFailure => "🔥",
            FaultType::RedisReadFailure => "❄️",
            FaultType::FileOpenFailure => "💥",
            FaultType::FileFaultType(_) => "⚡",
        }
    }

    /// The line the dashboard logs for a fault of this kind.
    pub open spec fn spec_log_message(self) -> Seq<char> {
        match self {
            FaultType::KafkaConnectionFailure => "Kafka connection failed"@,
            FaultType::RedisConnectionFailure => "Redis connection failed"@,
            FaultType::KafkaReadFailure => "Kafka read failed"@,
            FaultType::RedisReadFailure => "Redis read failed"@,
            FaultType::FileOpenFailure => "File open failed"@,
            FaultType::FileFaultType(file_fault) => match file_fault {
                FileFaultType::FileReadFailure => "File read failed"@,
                FileFaultType::FileWriteFailure => "File write failed"@,
                FileFaultType::FileSizeExceededFailure => "File size exceeded"@,
                FileFaultType::FileMetadataSyncFailure => "File metadata sync failed"@,
            },
        }
    }

    pub fn to_log_message(&self) -> (r: String)
        ensures
            r@ == self.spec_log_message(),
    {
        match self {
            FaultType::KafkaConnectionFailure => "Kafka connection failed".to_owned(),
            FaultType::RedisConnectionFailure => "Redis connection failed".to_owned(),
            FaultType::KafkaReadFailure => "Kafka read failed".to_owned(),
            FaultType::RedisReadFailure => "Redis read failed".to_owned(),
            FaultType::FileOpenFailure => "File open failed".to_owned(),
            FaultType::FileFaultType(file_fault) => match file_fault {
                FileFaultType::FileReadFailure => "File read failed".to_owned(),
                FileFaultType::FileWriteFailure => "File write failed".to_owned(),
                FileFaultType::FileSizeExceededFailure => "File size exceeded".to_owned(),
                FileFaultType::FileMetadataSyncFailure => "File metadata sync failed".to_owned(),
            },
        }
    }
}

/// Injection probabilities are expressed as a numerator over this
/// denominator, so that a kind with numerator `p` fires with probability
/// `p / 1000`.
pub const FAULT_PROBABILITY_DENOMINATOR: u64 = 1000;

/// The default numerator for every fault kind: a probability of 0.1.
pub const DEFAULT_FAULT_PROBABILITY: u64 = 100;

/// The probability table: one numerator (over
/// [`FAULT_PROBABILITY_DENOMINATOR`]) per fault kind.  Constructed with the
/// simulator and never mutated during a run.
#[derive(Clone, Copy, PartialEq, Eq, Structural, Debug)]
pub struct FaultProbabilities {
    pub kafka_connection: u64,
    pub kafka_read: u64,
    pub redis_connection: u64,
    pub redis_read: u64,
    pub file_open: u64,
    pub file_read: u64,
    pub file_write: u64,
    pub file_size_exceeded: u64,
    pub file_metadata_sync: u64,
}

impl FaultProbabilities {
    /// Every numerator stays within the denominator, so each entry is a
    /// probability in [0, 1].
    pub open spec fn wf(self) -> bool {
        &&& self.kafka_connection <= FAULT_PROBABILITY_DENOMINATOR
        &&& self.kafka_read <= FAULT_PROBABILITY_DENOMINATOR
        &&& self.redis_connection <= FAULT_PROBABILITY_DENOMINATOR
        &&& self.redis_read <= FAULT_PROBABILITY_DENOMINATOR
        &&& self.file_open <= FAULT_PROBABILITY_DENOMINATOR
        &&& self.file_read <= FAULT_PROBABILITY_DENOMINATOR
        &&& self.file_write <= FAULT_PROBABILITY_DENOMINATOR
        &&& self.file_size_exceeded <= FAULT_PROBABILITY_DENOMINATOR
        &&& self.file_metadata_sync <= FAULT_PROBABILITY_DENOMINATOR
    }

    /// The numerator configured for a given fault kind.
    pub open spec fn spec_probability_of(self, fault: FaultType) -> u64 {
        match fault {
            FaultType::KafkaConnectionFailure => self.kafka_connection,
            FaultType::KafkaReadFailure => self.kafka_read,
            FaultType::RedisConnectionFailure => self.redis_connection,
            FaultType::RedisReadFailure => self.redis_read,
            FaultType::FileOpenFailure => self.file_open,
            FaultType::FileFaultType(file_fault) => self.spec_file_probability_of(file_fault),
        }
    }

    /// The numerator configured for a given file fault kind.
    pub open spec fn spec_file_probability_of(self, fault: FileFaultType) -> u64 {
        match fault {
            FileFaultType::FileReadFailure => self.file_read,
            FileFaultType::FileWriteFailure => self.file_write,
            FileFaultType::FileSizeExceededFailure => self.file_size_exceeded,
            FileFaultType::FileMetadataSyncFailure => self.file_metadata_sync,
        }
    }

    /// The table with every kind at the default probability of 0.1.
    pub fn defaults() -> (r: FaultProbabilities)
        ensures
            r.wf(),
            r == (FaultProbabilities {
                kafka_connection: DEFAULT_FAULT_PROBABILITY,
                kafka_read: DEFAULT_FAULT_PROBABILITY,
                redis_connection: DEFAULT_FAULT_PROBABILITY,
                redis_read: DEFAULT_FAULT_PROBABILITY,
                file_open: DEFAULT_FAULT_PROBABILITY,
                file_read: DEFAULT_FAULT_PROBABILITY,
                file_write: DEFAULT_FAULT_PROBABILITY,
                file_size_exceeded: DEFAULT_FAULT_PROBABILITY,
                file_metadata_sync: DEFAULT_FAULT_PROBABILITY,
            }),
            forall|fault: FaultType| r.spec_probability_of(fault) == DEFAULT_FAULT_PROBABILITY,
    {
        FaultProbabilities {
            kafka_connection: DEFAULT_FAULT_PROBABILITY,
            kafka_read: DEFAULT_FAULT_PROBABILITY,
            redis_connection: DEFAULT_FAULT_PROBABILITY,
            redis_read: DEFAULT_FAULT_PROBABILITY,
            file_open: DEFAULT_FAULT_PROBABILITY,
            file_read: DEFAULT_FAULT_PROBABILITY,
            file_write: DEFAULT_FAULT_PROBABILITY,
            file_size_exceeded: DEFAULT_FAULT_PROBABILITY,
            file_metadata_sync: DEFAULT_FAULT_PROBABILITY,
        }
    }

    pub fn probability_of(&self, fault: FaultType) -> (r: u64)
        ensures
            r == self.spec_probability_of(fault),
    {
        match fault {
            FaultType::KafkaConnectionFailure => self.kafka_connection,
            FaultType::KafkaReadFailure => self.kafka_read,
            FaultType::RedisConnectionFailure => self.redis_connection,
            FaultType::RedisReadFailure => self.redis_read,
            FaultType::FileOpenFailure => self.file_open,
            FaultType::FileFaultType(file_fault) => self.file_probability_of(file_fault),
        }
    }

    pub fn file_probability_of(&self, fault: FileFaultType) -> (r: u64)
        ensures
            r == self.spec_file_probability_of(fault),
    {
        match fault {
            FileFaultType::FileReadFailure => self.file_read,
            FileFaultType::FileWriteFailure => self.file_write,
            FileFaultType::FileSizeExceededFailure => self.file_size_exceeded,
            FileFaultType::FileMetadataSyncFailure => self.file_metadata_sync,
        }
    }
}

} // verus!
