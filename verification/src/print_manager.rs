use std::collections::VecDeque;
use vstd::prelude::*;

verus! {

/// A value that can be queued for printing.
#[derive(Clone, Copy, Debug, PartialEq, Eq, Structural)]
pub enum Job {
    Byte(u8),
    Flag(bool),
}

/// A sink for jobs. `printed` names the printer that `print` leaves behind.
pub trait Printer: Sized {
    /// The printer as printing `job` leaves it.
    spec fn printed(self, job: Job) -> Self;

    fn print(&mut self, job: Job)
        ensures
            *final(self) == old(self).printed(job),
    ;
}

/// A printer together with the first-in, first-out queue of jobs waiting for it.
pub struct PrintManager<P: Printer> {
    printer: P,
    queue: VecDeque<Job>,
}

impl<P: Printer> PrintManager<P> {
    /// The jobs that wait, oldest first.
    pub closed spec fn pending(&self) -> Seq<Job> {
        self.queue@
    }

    /// The printer as the jobs printed so far have left it.
    pub closed spec fn printer(&self) -> P {
        self.printer
    }

    /// A manager for the printer `p`, with nothing queued.
    pub fn new(p: P) -> (manager: Self)
        ensures
            manager.printer() == p,
            manager.pending() == Seq::<Job>::empty(),
    {
        PrintManager { printer: p, queue: VecDeque::new() }
    }

    /// The printer, for reading.
    pub fn printer_ref(&self) -> (printer: &P)
        ensures
            *printer == self.printer(),
    {
        &self.printer
    }

    /// The number of jobs that wait.
    pub fn waiting(&self) -> (n: usize)
        ensures
            n == self.pending().len(),
    {
        self.queue.len()
    }

    /// Queues `job` behind every job already waiting.
    pub fn submit_job(&mut self, job: Job)
        ensures
            final(self).printer() == old(self).printer(),
            final(self).pending() == old(self).pending().push(job),
    {
        self.queue.push_back(job);
    }

    /// Prints the oldest waiting job, if there is one, and takes it off the
    /// queue. With nothing waiting, nothing happens.
    pub fn do_print(&mut self)
        ensures
            old(self).pending().len() == 0 ==> final(self).printer() == old(self).printer()
                && final(self).pending() == old(self).pending(),
            old(self).pending().len() > 0 ==> final(self).printer() == old(self).printer().printed(
                old(self).pending()[0],
            ) && final(self).pending() == old(self).pending().drop_first(),
    {
        match self.queue.pop_front() {
            Some(job) => self.printer.print(job),
            None => (),
        }
    }
}

} // verus!
