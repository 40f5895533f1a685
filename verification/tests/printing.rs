use romeo::print_manager::{Job, PrintManager, Printer};

struct Lines {
    lines: Vec<String>,
}

impl Printer for Lines {
    fn printed(self, job: Job) -> Self {
        let mut next = self;
        next.print(job);
        next
    }

    fn print(&mut self, job: Job) {
        match job {
            Job::Byte(val) => self.lines.push(format!("u8: {}", val)),
            Job::Flag(true) => self.lines.push(String::from("bool: true")),
            Job::Flag(false) => self.lines.push(String::from("bool: false")),
        }
    }
}

#[test]
fn jobs_print_in_the_order_submitted() {
    let mut manager = PrintManager::new(Lines { lines: Vec::new() });
    manager.submit_job(Job::Byte(1));
    manager.submit_job(Job::Flag(false));
    assert_eq!(manager.waiting(), 2);
    manager.do_print();
    assert_eq!(manager.waiting(), 1);
    assert_eq!(manager.printer_ref().lines, vec![String::from("u8: 1")]);
    manager.do_print();
    assert_eq!(
        manager.printer_ref().lines,
        vec![String::from("u8: 1"), String::from("bool: false")]
    );
    assert_eq!(manager.waiting(), 0);
}

#[test]
fn printing_with_nothing_queued_does_nothing() {
    let mut manager = PrintManager::new(Lines { lines: Vec::new() });
    manager.do_print();
    assert!(manager.printer_ref().lines.is_empty());
    assert_eq!(manager.waiting(), 0);
    manager.submit_job(Job::Flag(true));
    manager.do_print();
    manager.do_print();
    assert_eq!(manager.printer_ref().lines, vec![String::from("bool: true")]);
    assert_eq!(manager.waiting(), 0);
}
