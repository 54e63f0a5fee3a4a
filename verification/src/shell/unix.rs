//! The job table of a shell with job control.
