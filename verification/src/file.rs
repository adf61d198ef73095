//! The simulated file: an in-memory append-only buffer with fault
//! injection, a durable (synced) prefix, and a tail reader for the last `n`
//! newline-delimited records.
//!
//! The file owns a fork of the simulator's pseudorandom stream, taken at
//! open time, so its draws do not perturb the broker and key-value draw
//! sequence.  Every operation's outcome is a pure function of the file's
//! model, captured by the `spec_*` functions on [`FileModel`].

use vstd::prelude::*;
use vstd::string::StrSliceExecFns;
use vstd::string::StringExecFns;
use crate::faults::Errors;
use crate::faults::FaultProbabilities;
use crate::faults::FileFaultType;
use crate::faults::FAULT_PROBABILITY_DENOMINATOR;
use crate::lines::spec_last_lines;
use crate::lines::last_n_lines;
use crate::prng::Prng;
use crate::prng::PrngModel;

verus! {

/// The mathematical state of a [`SimulatedFile`].
#[verifier::ext_equal]
pub ghost struct FileModel {
    pub prng: PrngModel,
    pub contents: Seq<char>,
    pub synced: Seq<char>,
    pub max_size: int,
    pub read_pos: int,
    pub probs: FaultProbabilities,
}

impl FileModel {
    /// One weighted draw against the configured probability of `fault`.
    pub open spec fn spec_should_inject(self, fault: FileFaultType) -> (bool, FileModel) {
        let (hit, prng) = self.prng.spec_ratio(
            self.probs.spec_file_probability_of(fault),
            FAULT_PROBABILITY_DENOMINATOR,
        );
        (hit, FileModel { prng, ..self })
    }

    /// Reading `size` characters at the read cursor: fails when the read
    /// fault fires, when `size` is not below the buffer length, or when the
    /// cursor would run past the end; otherwise returns the characters and
    /// advances the cursor.
    pub open spec fn spec_read(self, size: int) -> (Result<Seq<char>, Errors>, FileModel) {
        let (hit, drawn) = self.spec_should_inject(FileFaultType::FileReadFailure);
        if hit {
            (Err(Errors::FileReadError), drawn)
        } else if size >= drawn.contents.len() || drawn.read_pos + size > drawn.contents.len() {
            (Err(Errors::FileReadError), drawn)
        } else {
            (
                Ok(drawn.contents.subrange(drawn.read_pos, drawn.read_pos + size)),
                FileModel { read_pos: drawn.read_pos + size, ..drawn },
            )
        }
    }

    /// Appending `data`: fails when the write fault fires or when the cap
    /// would be exceeded; otherwise appends and reports how much was
    /// written.
    pub open spec fn spec_write(self, data: Seq<char>) -> (Result<int, Errors>, FileModel) {
        let (hit, drawn) = self.spec_should_inject(FileFaultType::FileWriteFailure);
        if hit {
            (Err(Errors::FileWriteError), drawn)
        } else if drawn.contents.len() + data.len() > drawn.max_size {
            (Err(Errors::FileWriteError), drawn)
        } else {
            (Ok(data.len() as int), FileModel { contents: drawn.contents + data, ..drawn })
        }
    }

    /// Syncing copies the unsynced contents into the durable contents; the
    /// default policy never fails it.
    pub open spec fn spec_fsync(self) -> FileModel {
        FileModel { synced: self.contents, ..self }
    }
}

/// The simulated file state: an unsynced in-memory buffer, the durable
/// contents as of the last sync, a size cap, cursors, and a forked
/// pseudorandom stream for fault draws.
pub struct SimulatedFile {
    prng: Prng,
    pub file_contents: String,
    pub synced_contents: String,
    pub current_file_size: usize,
    pub max_file_size: usize,
    pub read_position: usize,
    pub write_position: usize,
    pub fault_probabilities: FaultProbabilities,
}

impl View for SimulatedFile {
    type V = FileModel;

    closed spec fn view(&self) -> FileModel {
        FileModel {
            prng: self.prng@,
            contents: self.file_contents@,
            synced: self.synced_contents@,
            max_size: self.max_file_size as int,
            read_pos: self.read_position as int,
            probs: self.fault_probabilities,
        }
    }
}

impl SimulatedFile {
    /// Well-formedness: the recorded size is the buffer's length, writes
    /// append at the end, the read cursor stays inside the buffer, and the
    /// durable contents are a prefix of the unsynced contents.
    pub closed spec fn wf(&self) -> bool {
        &&& self.current_file_size == self.file_contents@.len()
        &&& self.write_position == self.file_contents@.len()
        &&& self.read_position <= self.file_contents@.len()
        &&& self.synced_contents@.len() <= self.file_contents@.len()
        &&& self.synced_contents@ == self.file_contents@.subrange(
            0,
            self.synced_contents@.len() as int,
        )
    }

    /// A fresh, empty simulated file around a forked pseudorandom stream.
    pub fn new(
        prng: Prng,
        max_file_size: usize,
        fault_probabilities: FaultProbabilities,
    ) -> (r: SimulatedFile)
        ensures
            r.wf(),
            r@ == (FileModel {
                prng: prng@,
                contents: Seq::<char>::empty(),
                synced: Seq::<char>::empty(),
                max_size: max_file_size as int,
                read_pos: 0,
                probs: fault_probabilities,
            }),
    {
        let r = SimulatedFile {
            prng,
            file_contents: String::new(),
            synced_contents: String::new(),
            current_file_size: 0,
            max_file_size,
            read_position: 0,
            write_position: 0,
            fault_probabilities,
        };
        proof {
            assert(r.synced_contents@ =~= r.file_contents@.subrange(0, 0));
            assert(r@ =~= (FileModel {
                prng: prng@,
                contents: Seq::<char>::empty(),
                synced: Seq::<char>::empty(),
                max_size: max_file_size as int,
                read_pos: 0,
                probs: fault_probabilities,
            }));
        }
        r
    }

    /// One weighted draw against the configured probability of `fault`.
    pub fn should_inject_fault(&mut self, fault: FileFaultType) -> (r: bool)
        requires
            old(self).wf(),
        ensures
            final(self).wf(),
            r == old(self)@.spec_should_inject(fault).0,
            final(self)@ == old(self)@.spec_should_inject(fault).1,
    {
        let probability = self.fault_probabilities.file_probability_of(fault);
        self.prng.next_ratio(probability, FAULT_PROBABILITY_DENOMINATOR)
    }

    /// `size` characters starting at the read cursor, advancing it.
    pub fn read(&mut self, size: usize) -> (r: Result<String, Errors>)
        requires
            old(self).wf(),
        ensures
            final(self).wf(),
            r matches Ok(data) ==> old(self)@.spec_read(size as int).0 == Ok::<_, Errors>(
                data@,
            ),
            r matches Err(e) ==> old(self)@.spec_read(size as int).0 == Err::<Seq<char>, _>(e),
            final(self)@ == old(self)@.spec_read(size as int).1,
    {
        if self.should_inject_fault(FileFaultType::FileReadFailure) {
            return Err(Errors::FileReadError);
        }
        if size >= self.current_file_size || size > self.current_file_size - self.read_position {
            return Err(Errors::FileReadError);
        }
        let data = self.file_contents.as_str().substring_char(
            self.read_position,
            self.read_position + size,
        ).to_owned();
        self.read_position = self.read_position + size;
        Ok(data)
    }

    /// Append the characters of `data`, advancing the write cursor and the
    /// recorded size on success.
    pub fn write(&mut self, data: &str) -> (r: Result<usize, Errors>)
        requires
            old(self).wf(),
        ensures
            final(self).wf(),
            r matches Ok(written) ==> old(self)@.spec_write(data@).0 == Ok::<_, Errors>(
                written as int,
            ),
            r matches Err(e) ==> old(self)@.spec_write(data@).0 == Err::<int, _>(e),
            final(self)@ == old(self)@.spec_write(data@).1,
    {
        if self.should_inject_fault(FileFaultType::FileWriteFailure) {
            return Err(Errors::FileWriteError);
        }
        let write_size = data.unicode_len();
        if write_size > self.max_file_size
            || self.current_file_size > self.max_file_size - write_size {
            return Err(Errors::FileWriteError);
        }
        let ghost before = self.file_contents@;
        self.file_contents.append(data);
        self.write_position = self.write_position + write_size;
        self.current_file_size = self.current_file_size + write_size;
        proof {
            assert(self.synced_contents@ =~= self.file_contents@.subrange(
                0,
                self.synced_contents@.len() as int,
            ));
        }
        Ok(write_size)
    }

    /// Copy the unsynced contents into the durable contents.
    pub fn fsync(&mut self) -> (r: Result<(), Errors>)
        requires
            old(self).wf(),
        ensures
            final(self).wf(),
            r == Ok::<(), Errors>(()),
            final(self)@ == old(self)@.spec_fsync(),
    {
        self.synced_contents = self.file_contents.clone();
        proof {
            assert(self.synced_contents@ =~= self.file_contents@.subrange(
                0,
                self.synced_contents@.len() as int,
            ));
        }
        Ok(())
    }

    /// The last `n` newline-delimited records of the file contents, in
    /// append order, their trailing newline stripped; all of them if fewer
    /// than `n` exist.  Draw-free and infallible in simulated mode.
    pub fn read_last_n_entries(&self, n: usize) -> (r: Result<Vec<String>, Errors>)
        ensures
            r matches Ok(entries) && entries@.map_values(|line: String| line@)
                == spec_last_lines(self@.contents, n as int),
    {
        Ok(last_n_lines(self.file_contents.as_str(), n))
    }
}

} // verus!
