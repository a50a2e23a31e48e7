use vstd::prelude::*;
use crate::scanner::{cycle_post, GameActivity, ScannerState};

verus! {

#[verifier::external_type_specification]
#[verifier::external_body]
pub struct ExSystem(sysinfo::System);

/// Relies on sysinfo::System::refresh_processes to bring the cached process
/// table up to date (all processes, dead ones removed). What the table then
/// holds depends on the machine, so nothing is stated of it.
#[verifier::external_body]
fn refresh_all_processes(sys: &mut sysinfo::System) {
    sys.refresh_processes(sysinfo::ProcessesToUpdate::All, true);
}

/// Relies on sysinfo::System::processes: hands out the name of every process
/// in the cached table, each converted to a plain string. The contents and
/// their order depend on the machine, so nothing is stated of them.
#[verifier::external_body]
fn process_names(sys: &sysinfo::System) -> (names: Vec<String>) {
    sys.processes().values().map(|p| p.name().to_string_lossy().into_owned()).collect()
}

impl ScannerState {
    /// One full scan cycle against the live machine: refresh the OS process
    /// table once, snapshot the process names, and run the cycle on that
    /// snapshot. Some snapshot governs the whole cycle; which one depends on
    /// the machine at the moment of the call.
    pub fn scan_once(&mut self, sys: &mut sysinfo::System) -> (ev: Option<GameActivity>)
        ensures
            exists|procs: Seq<String>| cycle_post(*old(self), procs, *final(self), ev),
    {
        refresh_all_processes(sys);
        let names = process_names(sys);
        let ev = self.scan_cycle(&names);
        proof {
            assert(cycle_post(*old(self), names@, *self, ev));
        }
        ev
    }
}

} // verus!
