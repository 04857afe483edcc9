//! The log lines the dashboard's live log view is fed with, one per tick.
use vstd::prelude::*;
use crate::text::{decimal, push_chars, push_decimal, push_str};

verus! {

/// The level and message of the log line for tick `n`.
pub open spec fn demo_log_spec(n: u64) -> (Seq<char>, Seq<char>) {
    let k = n % 10;
    if k == 0 {
        ("info"@, "System health check completed"@)
    } else if k == 1 {
        ("info"@, "Processing request #"@ + decimal(n as nat))
    } else if k == 2 {
        ("info"@, "Storage usage: "@ + decimal((n % 100) as nat) + "%"@)
    } else if k == 3 {
        ("warn"@, "High memory usage: "@ + decimal((80 + n % 20) as nat) + "%"@)
    } else if k == 4 {
        ("info"@, "Active connections: "@ + decimal((10 + n % 50) as nat))
    } else if k == 5 {
        ("info"@, "Bucket access: test-bucket"@)
    } else if k == 6 {
        ("info"@, "Object uploaded: file-"@ + decimal(n as nat) + ".txt"@)
    } else if k == 7 {
        ("info"@, "GET /api/v1/metrics - 200 OK"@)
    } else if k == 8 {
        ("info"@, "WebSocket client connected"@)
    } else {
        ("info"@, "Background task #"@ + decimal(n as nat) + " completed"@)
    }
}

fn push_number(s: &mut String, n: u64)
    ensures
        final(s)@ == old(s)@ + decimal(n as nat),
{
    let mut d: Vec<char> = Vec::new();
    push_decimal(&mut d, n);
    assert(d@ =~= decimal(n as nat));
    push_chars(s, d.as_slice());
}

/// The level and message of the log line for tick `counter`.
pub fn demo_log_entry(counter: u64) -> (r: (&'static str, String))
    ensures
        r.0@ == demo_log_spec(counter).0,
        r.1@ == demo_log_spec(counter).1,
{
    let mut m = String::new();
    let k = counter % 10;
    if k == 0 {
        push_str(&mut m, "System health check completed");
        ("info", m)
    } else if k == 1 {
        push_str(&mut m, "Processing request #");
        push_number(&mut m, counter);
        ("info", m)
    } else if k == 2 {
        push_str(&mut m, "Storage usage: ");
        push_number(&mut m, counter % 100);
        push_str(&mut m, "%");
        ("info", m)
    } else if k == 3 {
        push_str(&mut m, "High memory usage: ");
        push_number(&mut m, 80 + counter % 20);
        push_str(&mut m, "%");
        ("warn", m)
    } else if k == 4 {
        push_str(&mut m, "Active connections: ");
        push_number(&mut m, 10 + counter % 50);
        ("info", m)
    } else if k == 5 {
        push_str(&mut m, "Bucket access: test-bucket");
        ("info", m)
    } else if k == 6 {
        push_str(&mut m, "Object uploaded: file-");
        push_number(&mut m, counter);
        push_str(&mut m, ".txt");
        ("info", m)
    } else if k == 7 {
        push_str(&mut m, "GET /api/v1/metrics - 200 OK");
        ("info", m)
    } else if k == 8 {
        push_str(&mut m, "WebSocket client connected");
        ("info", m)
    } else {
        push_str(&mut m, "Background task #");
        push_number(&mut m, counter);
        push_str(&mut m, " completed");
        ("info", m)
    }
}

} // verus!
