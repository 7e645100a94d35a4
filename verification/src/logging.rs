//! The in-process journal the jobs and pipelines write their outcomes to:
//! one buffer per severity, appended in order. Draining the buffers to
//! disk, and the batching of that writer, happen outside the core; the
//! flush decision the writer applies is specified here.

use vstd::prelude::*;

verus! {

/// A message severity.
#[derive(Clone, Copy, PartialEq, Eq, Structural, Debug)]
pub enum Level {
    Info,
    Warn,
    Error,
    Debug,
}

/// The journal: per-severity message buffers, in arrival order.
pub struct Logger {
    pub name: String,
    pub info_log: Vec<String>,
    pub warn_log: Vec<String>,
    pub error_log: Vec<String>,
    pub debug_log: Vec<String>,
}

impl Logger {
    /// An empty journal under a log name.
    pub fn new(log_name: &str) -> (r: Logger)
        ensures
            r.name@ == log_name@,
            r.info_log@.len() == 0,
            r.warn_log@.len() == 0,
            r.error_log@.len() == 0,
            r.debug_log@.len() == 0,
    {
        Logger {
            name: log_name.to_owned(),
            info_log: Vec::new(),
            warn_log: Vec::new(),
            error_log: Vec::new(),
            debug_log: Vec::new(),
        }
    }

    /// Append one message under a severity. Nothing else changes.
    pub fn send(&mut self, msg: String, level: Level)
        ensures
            final(self).name == old(self).name,
            final(self).info_log@ == (if level is Info {
                old(self).info_log@.push(msg)
            } else {
                old(self).info_log@
            }),
            final(self).warn_log@ == (if level is Warn {
                old(self).warn_log@.push(msg)
            } else {
                old(self).warn_log@
            }),
            final(self).error_log@ == (if level is Error {
                old(self).error_log@.push(msg)
            } else {
                old(self).error_log@
            }),
            final(self).debug_log@ == (if level is Debug {
                old(self).debug_log@.push(msg)
            } else {
                old(self).debug_log@
            }),
    {
        match level {
            Level::Info => self.info_log.push(msg),
            Level::Warn => self.warn_log.push(msg),
            Level::Error => self.error_log.push(msg),
            Level::Debug => self.debug_log.push(msg),
        }
    }

    /// Append an informational message.
    pub fn info(&mut self, log: String)
        ensures
            final(self).name == old(self).name,
            final(self).info_log@ == old(self).info_log@.push(log),
            final(self).warn_log@ == old(self).warn_log@,
            final(self).error_log@ == old(self).error_log@,
            final(self).debug_log@ == old(self).debug_log@,
    {
        self.send(log, Level::Info);
    }

    /// Append a warning.
    pub fn warn(&mut self, log: String)
        ensures
            final(self).name == old(self).name,
            final(self).warn_log@ == old(self).warn_log@.push(log),
            final(self).info_log@ == old(self).info_log@,
            final(self).error_log@ == old(self).error_log@,
            final(self).debug_log@ == old(self).debug_log@,
    {
        self.send(log, Level::Warn);
    }

    /// Append an error message.
    pub fn error(&mut self, log: String)
        ensures
            final(self).name == old(self).name,
            final(self).error_log@ == old(self).error_log@.push(log),
            final(self).info_log@ == old(self).info_log@,
            final(self).warn_log@ == old(self).warn_log@,
            final(self).debug_log@ == old(self).debug_log@,
    {
        self.send(log, Level::Error);
    }

    /// Append a debug message.
    pub fn debug(&mut self, log: String)
        ensures
            final(self).name == old(self).name,
            final(self).debug_log@ == old(self).debug_log@.push(log),
            final(self).info_log@ == old(self).info_log@,
            final(self).warn_log@ == old(self).warn_log@,
            final(self).error_log@ == old(self).error_log@,
    {
        self.send(log, Level::Debug);
    }
}

/// Journal an informational message.
pub fn info_file_async(logger: &mut Logger, log: String)
    ensures
        final(logger).info_log@ == old(logger).info_log@.push(log),
        final(logger).name == old(logger).name,
        final(logger).warn_log@ == old(logger).warn_log@,
        final(logger).error_log@ == old(logger).error_log@,
        final(logger).debug_log@ == old(logger).debug_log@,
{
    logger.info(log);
}

/// Journal a warning.
pub fn warn_file_async(logger: &mut Logger, log: String)
    ensures
        final(logger).warn_log@ == old(logger).warn_log@.push(log),
        final(logger).name == old(logger).name,
        final(logger).info_log@ == old(logger).info_log@,
        final(logger).error_log@ == old(logger).error_log@,
        final(logger).debug_log@ == old(logger).debug_log@,
{
    logger.warn(log);
}

/// Journal an error message.
pub fn error_file_async(logger: &mut Logger, log: String)
    ensures
        final(logger).error_log@ == old(logger).error_log@.push(log),
        final(logger).name == old(logger).name,
        final(logger).info_log@ == old(logger).info_log@,
        final(logger).warn_log@ == old(logger).warn_log@,
        final(logger).debug_log@ == old(logger).debug_log@,
{
    logger.error(log);
}

/// Journal a debug message.
pub fn debug_file_async(logger: &mut Logger, log: String)
    ensures
        final(logger).debug_log@ == old(logger).debug_log@.push(log),
        final(logger).name == old(logger).name,
        final(logger).info_log@ == old(logger).info_log@,
        final(logger).warn_log@ == old(logger).warn_log@,
        final(logger).error_log@ == old(logger).error_log@,
{
    logger.debug(log);
}

/// The file writer's batching rule: a buffered line is flushed once no
/// further message is queued, or once the buffer has reached 2048 bytes.
pub fn should_flush(queue_empty: bool, line_len: usize) -> (r: bool)
    ensures
        r == (queue_empty || line_len >= 2048),
{
    queue_empty || line_len >= 2048
}

} // verus!
