//! The generators: pure random construction of plausible records, exactly
//! `count` per call, every field drawn from its documented closed set or
//! numeric range, and contact numbers unique within the batch through an
//! explicit bounded-retry tracker.
use vstd::prelude::*;

use crate::date::{digit_char, digit_str, now_year, Date};
use crate::error::Error;
use crate::record::{
    Address, AddressV, Client, ClientV, Contract, ContractV, Employee, EmployeeV, Payment,
    PaymentV, Project, ProjectV, Staff, StaffV, Task, TaskV, Technology,
};

verus! {

/// How many fresh draws the uniqueness tracker tries before giving up
/// with `ResourceExhausted`.
pub const MAX_UNIQUE_ATTEMPTS: u64 = 100;

/// Relies on rand::Rng::gen_range on the thread-local generator: a
/// uniform draw from the half-open range. The range is non-empty by the
/// precondition, so the call cannot panic; nothing more is promised of
/// which value comes back.
#[verifier::external_body]
fn rand_range(lo: u64, hi: u64) -> (r: u64)
    requires
        lo < hi,
    ensures
        lo <= r < hi,
{
    rand::Rng::gen_range(&mut rand::thread_rng(), lo..hi)
}

/// What the outside case folding returns; a function of the characters
/// alone.
pub uninterp spec fn lower_of(s: Seq<char>) -> Seq<char>;

/// Relies on str::to_lowercase: the lowercased text depends on the
/// characters alone, and an empty text stays empty.
#[verifier::external_body]
fn lowercase(s: &str) -> (r: String)
    ensures
        r@ == lower_of(s@),
        s@.len() == 0 ==> r@.len() == 0,
{
    s.to_lowercase()
}

/// The decimal numeral of a non-negative integer, without leading zeros.
pub open spec fn dec_str(n: int) -> Seq<char>
    decreases n,
{
    if n < 10 {
        seq![digit_char(n)]
    } else {
        dec_str(n / 10).push(digit_char(n % 10))
    }
}

/// Renders an integer as its decimal numeral.
pub fn format_u64(n: u64) -> (r: String)
    ensures
        r@ == dec_str(n as int),
    decreases n,
{
    if n < 10 {
        let mut s = String::new();
        s.append(digit_str(n as u32));
        proof {
            assert(s@ =~= dec_str(n as int));
        }
        s
    } else {
        let mut s = format_u64(n / 10);
        s.append(digit_str((n % 10) as u32));
        proof {
            assert(s@ =~= dec_str(n as int));
        }
        s
    }
}

/// A decimal numeral is never empty, and has one character exactly on
/// one-digit values.
pub proof fn lemma_dec_str_len(n: int)
    requires
        n >= 0,
    ensures
        dec_str(n).len() >= 1,
        (dec_str(n).len() == 1 <==> n < 10),
    decreases n,
{
    if n >= 10 {
        lemma_dec_str_len(n / 10);
    }
}

/// Distinct values have distinct decimal numerals.
pub proof fn lemma_dec_str_inj(a: int, b: int)
    requires
        a >= 0,
        b >= 0,
        dec_str(a) == dec_str(b),
    ensures
        a == b,
    decreases a,
{
    lemma_dec_str_len(a);
    lemma_dec_str_len(b);
    if a < 10 && b < 10 {
        assert(dec_str(a)[0] == digit_char(a));
        assert(dec_str(b)[0] == digit_char(b));
        crate::date::lemma_digit_char_val(a);
        crate::date::lemma_digit_char_val(b);
    } else if a >= 10 && b >= 10 {
        crate::date::lemma_digit_char_val(a % 10);
        crate::date::lemma_digit_char_val(b % 10);
        assert(dec_str(a).last() == digit_char(a % 10));
        assert(dec_str(b).last() == digit_char(b % 10));
        assert(a % 10 == b % 10);
        assert(dec_str(a).drop_last() =~= dec_str(a / 10));
        assert(dec_str(b).drop_last() =~= dec_str(b / 10));
        lemma_dec_str_inj(a / 10, b / 10);
    }
}

/// The text of a contact number: the fixed country prefix and the digits.
pub open spec fn phone_str(n: int) -> Seq<char> {
    "+48 "@ + dec_str(n)
}

/// Renders a contact number.
fn format_phone(n: u64) -> (r: String)
    ensures
        r@ == phone_str(n as int),
{
    let mut s = String::new();
    s.append("+48 ");
    let digits = format_u64(n);
    s.append(digits.as_str());
    proof {
        assert(s@ =~= phone_str(n as int));
    }
    s
}

/// Distinct values have distinct contact-number texts.
pub proof fn lemma_phone_str_inj(a: int, b: int)
    requires
        a >= 0,
        b >= 0,
        phone_str(a) == phone_str(b),
    ensures
        a == b,
{
    reveal_strlit("+48 ");
    assert(phone_str(a).subrange(4, phone_str(a).len() as int) =~= dec_str(a));
    assert(phone_str(b).subrange(4, phone_str(b).len() as int) =~= dec_str(b));
    lemma_dec_str_inj(a, b);
}

/// Whether a value is already in the uniqueness tracker.
fn tracker_contains(used: &Vec<u64>, x: u64) -> (r: bool)
    ensures
        r == used@.contains(x),
{
    let mut i: usize = 0;
    while i < used.len()
        invariant
            i <= used@.len(),
            forall|j: int| 0 <= j < i ==> used@[j] != x,
        decreases used@.len() - i,
    {
        if used[i] == x {
            return true;
        }
        i += 1;
    }
    false
}

/// Draws a value from the half-open range that is not yet in the tracker,
/// retrying at most `MAX_UNIQUE_ATTEMPTS` times, and records it. Gives up
/// with `ResourceExhausted` when every attempt collided — which needs at
/// least one earlier draw to collide with, so the first draw of a batch
/// always succeeds.
fn draw_unique(used: &mut Vec<u64>, lo: u64, hi: u64) -> (r: Result<u64, Error>)
    requires
        lo < hi,
    ensures
        match r {
            Ok(n) => {
                &&& lo <= n < hi
                &&& !old(used)@.contains(n)
                &&& final(used)@ == old(used)@.push(n)
            },
            Err(e) => e == Error::ResourceExhausted && final(used)@ == old(used)@,
        },
        old(used)@.len() == 0 ==> r is Ok,
{
    let mut attempts: u64 = 0;
    while attempts < MAX_UNIQUE_ATTEMPTS
        invariant
            lo < hi,
            used@ == old(used)@,
            attempts > 0 ==> old(used)@.len() > 0,
        decreases MAX_UNIQUE_ATTEMPTS - attempts,
    {
        let n = rand_range(lo, hi);
        if !tracker_contains(used, n) {
            used.push(n);
            return Ok(n);
        }
        proof {
            assert(used@.len() > 0);
        }
        attempts += 1;
    }
    Err(Error::ResourceExhausted)
}

/// A draw from a supplied word list, or the fixed fallback when no
/// candidate is available.
pub open spec fn from_list_or(s: Seq<char>, list: Seq<String>, fallback: Seq<char>) -> bool {
    if list.len() == 0 {
        s == fallback
    } else {
        exists|i: int| 0 <= i < list.len() && s == list[i]@
    }
}

/// Picks a word from the list, substituting the fallback when the list is
/// empty.
fn pick_word(list: &Vec<String>, fallback: &str) -> (r: String)
    ensures
        from_list_or(r@, list@, fallback@),
{
    if list.len() == 0 {
        let r = fallback.to_owned();
        r
    } else {
        let i = rand_range(0, list.len() as u64) as usize;
        let r = list[i].clone();
        proof {
            assert(r@ == list@[i as int]@);
        }
        r
    }
}

/// A calendar date with the year in the given range, the month free and
/// the day at most 28, so that every draw is a valid date.
fn rand_date(ylo: i32, yhi: i32) -> (r: Date)
    requires
        1000 <= ylo <= yhi <= 9999,
    ensures
        r.valid(),
        ylo <= r.year <= yhi,
        1 <= r.month <= 12,
        1 <= r.day <= 28,
{
    let span = (yhi - ylo) as u64 + 1;
    let year = ylo + rand_range(0, span) as i32;
    let month = rand_range(1, 13) as u8;
    let day = rand_range(1, 29) as u8;
    Date { year, month, day }
}

/// The current civil year, clamped into a band in which all of the
/// engine's year arithmetic stays within valid four-digit dates. For any
/// sane clock the clamp changes nothing.
fn clamped_now_year() -> (r: i32)
    ensures
        1975 <= r <= 8000,
{
    let y = now_year();
    if y < 1975 || y > 8000 {
        2020
    } else {
        y
    }
}

/// The word lists the surrounding service supplies to the generators.
pub struct WordLists {
    pub first_names: Vec<String>,
    pub last_names: Vec<String>,
    pub cities: Vec<String>,
    pub streets: Vec<String>,
}

// ---------------------------------------------------------------------
// Closed value sets.
// ---------------------------------------------------------------------
/// The closed set of department names.
pub open spec fn is_department(s: Seq<char>) -> bool {
    s == "HR"@ || s == "IT"@ || s == "Finance"@ || s == "Sales"@
}

fn pick_department() -> (r: String)
    ensures
        is_department(r@),
{
    let i = rand_range(0, 4);
    let w = match i {
        0 => "HR",
        1 => "IT",
        2 => "Finance",
        _ => "Sales",
    };
    w.to_owned()
}

/// The closed set of employee positions.
pub open spec fn is_position(s: Seq<char>) -> bool {
    s == "HR"@ || s == "IT"@ || s == "Finance"@ || s == "Sales"@ || s == "Administration"@ || s
        == "Public Relations"@
}

fn pick_position() -> (r: String)
    ensures
        is_position(r@),
{
    let i = rand_range(0, 6);
    let w = match i {
        0 => "HR",
        1 => "IT",
        2 => "Finance",
        3 => "Sales",
        4 => "Administration",
        _ => "Public Relations",
    };
    w.to_owned()
}

/// The closed set of personal mail domains used for clients.
pub open spec fn is_personal_domain(s: Seq<char>) -> bool {
    s == "gmail.com"@ || s == "yahoo.com"@ || s == "outlook.com"@ || s == "example.com"@
}

fn pick_personal_domain() -> (r: &'static str)
    ensures
        is_personal_domain(r@),
{
    let i = rand_range(0, 4);
    match i {
        0 => "gmail.com",
        1 => "yahoo.com",
        2 => "outlook.com",
        _ => "example.com",
    }
}

/// The closed set of corporate mail domains used for employees.
pub open spec fn is_corporate_domain(s: Seq<char>) -> bool {
    s == "company.com"@ || s == "corporate.com"@ || s == "business.com"@
}

fn pick_corporate_domain() -> (r: &'static str)
    ensures
        is_corporate_domain(r@),
{
    let i = rand_range(0, 3);
    match i {
        0 => "company.com",
        1 => "corporate.com",
        _ => "business.com",
    }
}

/// The closed set of payment methods.
pub open spec fn is_payment_method(s: Seq<char>) -> bool {
    s == "Credit Card"@ || s == "Bank Transfer"@ || s == "PayPal"@ || s == "Cash"@ || s
        == "Cryptocurrency"@
}

fn pick_payment_method() -> (r: String)
    ensures
        is_payment_method(r@),
{
    let i = rand_range(0, 5);
    let w = match i {
        0 => "Credit Card",
        1 => "Bank Transfer",
        2 => "PayPal",
        3 => "Cash",
        _ => "Cryptocurrency",
    };
    w.to_owned()
}

/// The closed set of contract types.
pub open spec fn is_contract_type(s: Seq<char>) -> bool {
    s == "B2B"@ || s == "UoP"@ || s == "Mandate Contract"@ || s == "Contract of Employment"@
}

fn pick_contract_type() -> (r: String)
    ensures
        is_contract_type(r@),
{
    let i = rand_range(0, 4);
    let w = match i {
        0 => "B2B",
        1 => "UoP",
        2 => "Mandate Contract",
        _ => "Contract of Employment",
    };
    w.to_owned()
}

/// The closed set of project and task statuses.
pub open spec fn is_status(s: Seq<char>) -> bool {
    s == "Not Started"@ || s == "In Progress"@ || s == "Completed"@
}

fn pick_status() -> (r: String)
    ensures
        is_status(r@),
{
    let i = rand_range(0, 3);
    let w = match i {
        0 => "Not Started",
        1 => "In Progress",
        _ => "Completed",
    };
    w.to_owned()
}

/// The closed set of project names.
pub open spec fn is_project_name(s: Seq<char>) -> bool {
    s == "Project A"@ || s == "Project B"@ || s == "Project C"@ || s == "Project D"@
}

fn pick_project_name() -> (r: String)
    ensures
        is_project_name(r@),
{
    let i = rand_range(0, 4);
    let w = match i {
        0 => "Project A",
        1 => "Project B",
        2 => "Project C",
        _ => "Project D",
    };
    w.to_owned()
}

/// The closed set of project descriptions.
pub open spec fn is_project_desc(s: Seq<char>) -> bool {
    s == "A project focused on AI research."@ || s == "A new web development initiative."@ || s
        == "A marketing campaign for a new product."@ || s
        == "A system upgrade for internal software."@
}

fn pick_project_desc() -> (r: String)
    ensures
        is_project_desc(r@),
{
    let i = rand_range(0, 4);
    let w = match i {
        0 => "A project focused on AI research.",
        1 => "A new web development initiative.",
        2 => "A marketing campaign for a new product.",
        _ => "A system upgrade for internal software.",
    };
    w.to_owned()
}

/// The closed set of task names.
pub open spec fn is_task_name(s: Seq<char>) -> bool {
    s == "Task A"@ || s == "Task B"@ || s == "Task C"@ || s == "Task D"@
}

fn pick_task_name() -> (r: String)
    ensures
        is_task_name(r@),
{
    let i = rand_range(0, 4);
    let w = match i {
        0 => "Task A",
        1 => "Task B",
        2 => "Task C",
        _ => "Task D",
    };
    w.to_owned()
}

/// The closed set of task descriptions.
pub open spec fn is_task_desc(s: Seq<char>) -> bool {
    s == "Task to research new technology."@ || s == "Task for setting up a new server."@ || s
        == "Task to write documentation."@ || s == "Task for a software code review."@
}

fn pick_task_desc() -> (r: String)
    ensures
        is_task_desc(r@),
{
    let i = rand_range(0, 4);
    let w = match i {
        0 => "Task to research new technology.",
        1 => "Task for setting up a new server.",
        2 => "Task to write documentation.",
        _ => "Task for a software code review.",
    };
    w.to_owned()
}

/// The name of the canonical technology entry at an index.
pub open spec fn tech_name(i: int) -> Seq<char> {
    if i == 0 {
        "Rust Programming"@
    } else if i == 1 {
        "Machine Learning"@
    } else if i == 2 {
        "Blockchain"@
    } else if i == 3 {
        "Quantum Computing"@
    } else if i == 4 {
        "Artificial Intelligence"@
    } else if i == 5 {
        "Cloud Computing"@
    } else {
        "Internet of Things"@
    }
}

/// The description of the canonical technology entry at an index.
pub open spec fn tech_desc(i: int) -> Seq<char> {
    if i == 0 {
        "A systems programming language focused on performance and safety."@
    } else if i == 1 {
        "A subset of artificial intelligence that focuses on algorithms and models that allow machines to learn from data."@
    } else if i == 2 {
        "A decentralized technology for secure and transparent transactions."@
    } else if i == 3 {
        "A new field of computing that uses quantum mechanics to process information."@
    } else if i == 4 {
        "A field of study in computer science that involves creating intelligent machines capable of performing tasks that usually require human intelligence."@
    } else if i == 5 {
        "A model of computing where services and resources are provided over the internet."@
    } else {
        "A network of physical devices, vehicles, buildings, and other objects embedded with sensors and software for the purpose of connecting and exchanging data."@
    }
}

/// A technology view is one of the seven canonical entries: the name and
/// the description of one and the same index.
pub open spec fn is_canonical_tech(name: Seq<char>, desc: Seq<char>) -> bool {
    exists|i: int| 0 <= i < 7 && name == tech_name(i) && desc == tech_desc(i)
}

/// Builds the canonical technology entry at an index.
pub fn canonical_technology(i: u64) -> (r: Technology)
    requires
        i < 7,
    ensures
        r@.name == tech_name(i as int),
        r@.description == tech_desc(i as int),
{
    let name = match i {
        0 => "Rust Programming",
        1 => "Machine Learning",
        2 => "Blockchain",
        3 => "Quantum Computing",
        4 => "Artificial Intelligence",
        5 => "Cloud Computing",
        _ => "Internet of Things",
    };
    let desc = match i {
        0 => "A systems programming language focused on performance and safety.",
        1 => "A subset of artificial intelligence that focuses on algorithms and models that allow machines to learn from data.",
        2 => "A decentralized technology for secure and transparent transactions.",
        3 => "A new field of computing that uses quantum mechanics to process information.",
        4 => "A field of study in computer science that involves creating intelligent machines capable of performing tasks that usually require human intelligence.",
        5 => "A model of computing where services and resources are provided over the internet.",
        _ => "A network of physical devices, vehicles, buildings, and other objects embedded with sensors and software for the purpose of connecting and exchanging data.",
    };
    Technology::new(name.to_owned(), desc.to_owned())
}

/// The mail address derived from two drawn names and a domain.
pub open spec fn email_of(first: Seq<char>, last: Seq<char>, domain: Seq<char>) -> Seq<char> {
    lower_of(first) + "."@ + lower_of(last) + "@"@ + domain
}

/// Composes the derived mail address `first.last@domain`, lowercased.
pub fn compose_email(first: &str, last: &str, domain: &str) -> (r: String)
    ensures
        r@ == email_of(first@, last@, domain@),
{
    let mut s = lowercase(first);
    s.append(".");
    let low_last = lowercase(last);
    s.append(low_last.as_str());
    s.append("@");
    s.append(domain);
    proof {
        assert(s@ =~= email_of(first@, last@, domain@));
    }
    s
}


// ---------------------------------------------------------------------
// Batch generators.
// ---------------------------------------------------------------------
/// What one generated address looks like.
pub open spec fn gen_address_ok(a: AddressV, cities: Seq<String>, streets: Seq<String>) -> bool {
    &&& from_list_or(a.city, cities, "Default City"@)
    &&& from_list_or(a.street, streets, "Default Street"@)
    &&& exists|n: int| 1 <= n <= 200 && a.street_number == dec_str(n)
    &&& exists|x: int, y: int|
        10 <= x <= 99 && 100 <= y <= 999 && a.postal_code == dec_str(x) + "-"@ + dec_str(y)
}

impl Address {
    /// Generates exactly `count` addresses from the supplied word lists.
    pub fn generate_batch(count: usize, cities: &Vec<String>, streets: &Vec<String>) -> (r: Vec<
        Address,
    >)
        ensures
            r@.len() == count,
            forall|i: int| 0 <= i < count ==> gen_address_ok(#[trigger] r@[i]@, cities@, streets@),
    {
        let mut out: Vec<Address> = Vec::new();
        let mut k: usize = 0;
        while k < count
            invariant
                out@.len() == k <= count,
                forall|i: int| 0 <= i < k ==> gen_address_ok(#[trigger] out@[i]@, cities@, streets@),
            decreases count - k,
        {
            let city = pick_word(cities, "Default City");
            let street = pick_word(streets, "Default Street");
            let n = rand_range(1, 201);
            let street_number = format_u64(n);
            let x = rand_range(10, 100);
            let y = rand_range(100, 1000);
            let mut postal_code = format_u64(x);
            postal_code.append("-");
            let ys = format_u64(y);
            postal_code.append(ys.as_str());
            let a = Address { city, street, street_number, postal_code };
            proof {
                assert(exists|m: int| 1 <= m <= 200 && a@.street_number == dec_str(m)) by {
                    assert(1 <= (n as int) <= 200 && a@.street_number == dec_str(n as int));
                }
                assert(a@.postal_code =~= dec_str(x as int) + "-"@ + dec_str(y as int));
                assert(exists|p: int, q: int|
                    10 <= p <= 99 && 100 <= q <= 999 && a@.postal_code == dec_str(p) + "-"@
                        + dec_str(q)) by {
                    assert(10 <= (x as int) <= 99 && 100 <= (y as int) <= 999 && a@.postal_code
                        == dec_str(x as int) + "-"@ + dec_str(y as int));
                }
            }
            out.push(a);
            k += 1;
        }
        out
    }
}

/// What one generated client looks like.
pub open spec fn gen_client_ok(c: ClientV, firsts: Seq<String>, lasts: Seq<String>) -> bool {
    &&& from_list_or(c.first_name, firsts, "John"@)
    &&& from_list_or(c.last_name, lasts, "Doe"@)
    &&& exists|d: Seq<char>|
        is_personal_domain(d) && c.email == email_of(c.first_name, c.last_name, d)
    &&& exists|n: int| 6_000_000_000 <= n < 9_000_000_000 && c.phone_number == phone_str(n)
}

impl Client {
    /// Generates exactly `count` clients from the supplied name lists,
    /// with contact numbers unique within the batch. Gives up with
    /// `ResourceExhausted` when the bounded retry for a fresh number
    /// fails.
    pub fn generate_batch(
        count: usize,
        first_names: &Vec<String>,
        last_names: &Vec<String>,
    ) -> (r: Result<Vec<Client>, Error>)
        ensures
            match r {
                Ok(cs) => {
                    &&& cs@.len() == count
                    &&& forall|i: int|
                        0 <= i < count ==> gen_client_ok(
                            #[trigger] cs@[i]@,
                            first_names@,
                            last_names@,
                        )
                    &&& forall|i: int, j: int|
                        0 <= i < j < count ==> cs@[i]@.phone_number != cs@[j]@.phone_number
                },
                Err(e) => e == Error::ResourceExhausted,
            },
            count <= 1 ==> r is Ok,
    {
        let mut out: Vec<Client> = Vec::new();
        let mut used: Vec<u64> = Vec::new();
        let mut k: usize = 0;
        while k < count
            invariant
                out@.len() == k <= count,
                used@.len() == k,
                forall|i: int|
                    0 <= i < k ==> gen_client_ok(#[trigger] out@[i]@, first_names@, last_names@),
                forall|i: int|
                    0 <= i < k ==> (#[trigger] out@[i]@.phone_number) == phone_str(
                        used@[i] as int,
                    ) && 6_000_000_000 <= used@[i] < 9_000_000_000,
                forall|p: int, q: int| 0 <= p < q < k ==> used@[p] != used@[q],
            decreases count - k,
        {
            let first_name = pick_word(first_names, "John");
            let last_name = pick_word(last_names, "Doe");
            let domain = pick_personal_domain();
            let email = compose_email(first_name.as_str(), last_name.as_str(), domain);
            let ghost used_before = used@;
            let n = match draw_unique(&mut used, 6_000_000_000, 9_000_000_000) {
                Ok(n) => n,
                Err(e) => {
                    return Err(e);
                },
            };
            let phone_number = format_phone(n);
            let c = Client { first_name, last_name, email, phone_number };
            proof {
                assert(exists|d: Seq<char>|
                    is_personal_domain(d) && c@.email == email_of(c@.first_name, c@.last_name, d))
                    by {
                    assert(is_personal_domain(domain@) && c@.email == email_of(
                        c@.first_name,
                        c@.last_name,
                        domain@,
                    ));
                }
                assert(exists|m: int|
                    6_000_000_000 <= m < 9_000_000_000 && c@.phone_number == phone_str(m)) by {
                    assert(6_000_000_000 <= (n as int) < 9_000_000_000 && c@.phone_number
                        == phone_str(n as int));
                }
                assert forall|p: int| 0 <= p < k implies used_before[p] != n by {
                    assert(used_before.contains(used_before[p]));
                }
            }
            out.push(c);
            k += 1;
        }
        proof {
            assert forall|i: int, j: int|
                0 <= i < j < count implies out@[i]@.phone_number != out@[j]@.phone_number by {
                if out@[i]@.phone_number == out@[j]@.phone_number {
                    lemma_phone_str_inj(used@[i] as int, used@[j] as int);
                }
            }
        }
        Ok(out)
    }
}

/// What one generated employee looks like.
pub open spec fn gen_employee_ok(e: EmployeeV, firsts: Seq<String>, lasts: Seq<String>) -> bool {
    &&& from_list_or(e.first_name, firsts, "John"@)
    &&& from_list_or(e.last_name, lasts, "Doe"@)
    &&& is_position(e.position)
    &&& exists|d: Seq<char>|
        is_corporate_domain(d) && e.email == email_of(e.first_name, e.last_name, d)
    &&& exists|n: int| 600_000_000 <= n < 999_999_999 && e.phone_number == phone_str(n)
    &&& e.contract_date.valid()
    &&& 2010 <= e.contract_date.year <= 2024
    &&& e.contract_date.day <= 28
}

impl Employee {
    /// Generates exactly `count` employees from the supplied name lists,
    /// with contact numbers unique within the batch. Gives up with
    /// `ResourceExhausted` when the bounded retry for a fresh number
    /// fails.
    pub fn generate_batch(
        count: usize,
        first_names: &Vec<String>,
        last_names: &Vec<String>,
    ) -> (r: Result<Vec<Employee>, Error>)
        ensures
            match r {
                Ok(es) => {
                    &&& es@.len() == count
                    &&& forall|i: int|
                        0 <= i < count ==> gen_employee_ok(
                            #[trigger] es@[i]@,
                            first_names@,
                            last_names@,
                        )
                    &&& forall|i: int, j: int|
                        0 <= i < j < count ==> es@[i]@.phone_number != es@[j]@.phone_number
                },
                Err(e) => e == Error::ResourceExhausted,
            },
            count <= 1 ==> r is Ok,
    {
        let mut out: Vec<Employee> = Vec::new();
        let mut used: Vec<u64> = Vec::new();
        let mut k: usize = 0;
        while k < count
            invariant
                out@.len() == k <= count,
                used@.len() == k,
                forall|i: int|
                    0 <= i < k ==> gen_employee_ok(#[trigger] out@[i]@, first_names@, last_names@),
                forall|i: int|
                    0 <= i < k ==> (#[trigger] out@[i]@.phone_number) == phone_str(
                        used@[i] as int,
                    ) && 600_000_000 <= used@[i] < 999_999_999,
                forall|p: int, q: int| 0 <= p < q < k ==> used@[p] != used@[q],
            decreases count - k,
        {
            let first_name = pick_word(first_names, "John");
            let last_name = pick_word(last_names, "Doe");
            let position = pick_position();
            let domain = pick_corporate_domain();
            let email = compose_email(first_name.as_str(), last_name.as_str(), domain);
            let ghost used_before = used@;
            let n = match draw_unique(&mut used, 600_000_000, 999_999_999) {
                Ok(n) => n,
                Err(e) => {
                    return Err(e);
                },
            };
            let phone_number = format_phone(n);
            let contract_date = rand_date(2010, 2024);
            let e = Employee {
                first_name,
                last_name,
                email,
                phone_number,
                position,
                contract_date,
            };
            proof {
                assert(exists|d: Seq<char>|
                    is_corporate_domain(d) && e@.email == email_of(e@.first_name, e@.last_name, d))
                    by {
                    assert(is_corporate_domain(domain@) && e@.email == email_of(
                        e@.first_name,
                        e@.last_name,
                        domain@,
                    ));
                }
                assert(exists|m: int|
                    600_000_000 <= m < 999_999_999 && e@.phone_number == phone_str(m)) by {
                    assert(600_000_000 <= (n as int) < 999_999_999 && e@.phone_number == phone_str(
                        n as int,
                    ));
                }
                assert forall|p: int| 0 <= p < k implies used_before[p] != n by {
                    assert(used_before.contains(used_before[p]));
                }
            }
            out.push(e);
            k += 1;
        }
        proof {
            assert forall|i: int, j: int|
                0 <= i < j < count implies out@[i]@.phone_number != out@[j]@.phone_number by {
                if out@[i]@.phone_number == out@[j]@.phone_number {
                    lemma_phone_str_inj(used@[i] as int, used@[j] as int);
                }
            }
        }
        Ok(out)
    }
}

/// What one generated contract looks like: the end date is the start date
/// moved forward by a bounded, positive number of days on the calendar,
/// so it strictly follows the start date.
pub open spec fn gen_contract_ok(c: ContractV) -> bool {
    &&& is_contract_type(c.type_of_contract)
    &&& c.start_date.valid()
    &&& 1970 <= c.start_date.year <= 8000
    &&& c.start_date.day <= 28
    &&& c.end_date.valid()
    &&& crate::date::date_lt(c.start_date, c.end_date)
    &&& exists|dys: int|
        180 <= dys <= 1825 && (
        c.end_date.year as int,
        c.end_date.month as int,
        c.end_date.day as int,
        ) == crate::date::date_plus_days(
            c.start_date.year as int,
            c.start_date.month as int,
            c.start_date.day as int,
            dys,
        )
    &&& 3000 <= c.salary <= 25000
}

impl Contract {
    /// Generates exactly `count` contracts; the start date falls within
    /// the last five years of the clock's current year.
    pub fn generate_batch(count: usize) -> (r: Vec<Contract>)
        ensures
            r@.len() == count,
            forall|i: int| 0 <= i < count ==> gen_contract_ok(#[trigger] r@[i]@),
    {
        let base = clamped_now_year();
        let mut out: Vec<Contract> = Vec::new();
        let mut k: usize = 0;
        while k < count
            invariant
                out@.len() == k <= count,
                1975 <= base <= 8000,
                forall|i: int| 0 <= i < k ==> gen_contract_ok(#[trigger] out@[i]@),
            decreases count - k,
        {
            let type_of_contract = pick_contract_type();
            let start_date = rand_date(base - 5, base);
            let days = rand_range(180, 1826);
            let end_date = crate::date::add_days(start_date, days);
            let salary = (3000 + rand_range(0, 22001)) as i32;
            let c = Contract { type_of_contract, start_date, end_date, salary };
            proof {
                assert(exists|dys: int|
                    180 <= dys <= 1825 && (
                    c@.end_date.year as int,
                    c@.end_date.month as int,
                    c@.end_date.day as int,
                    ) == crate::date::date_plus_days(
                        c@.start_date.year as int,
                        c@.start_date.month as int,
                        c@.start_date.day as int,
                        dys,
                    )) by {
                    assert(180 <= (days as int) <= 1825 && (
                    c@.end_date.year as int,
                    c@.end_date.month as int,
                    c@.end_date.day as int,
                    ) == crate::date::date_plus_days(
                        c@.start_date.year as int,
                        c@.start_date.month as int,
                        c@.start_date.day as int,
                        days as int,
                    ));
                }
                assert(gen_contract_ok(c@));
            }
            out.push(c);
            k += 1;
        }
        out
    }
}

/// What one generated payment looks like: an amount in cents between ten
/// and ten thousand currency units, drawn from the last few years.
pub open spec fn gen_payment_ok(p: PaymentV) -> bool {
    &&& 1000 <= p.amount_cents <= 1_000_000
    &&& is_payment_method(p.method)
    &&& p.payment_due_date.valid()
    &&& 1972 <= p.payment_due_date.year <= 8000
    &&& p.payment_due_date.day <= 28
}

impl Payment {
    /// Generates exactly `count` payments; the due date falls within the
    /// last three years of the clock's current year.
    pub fn generate_batch(count: usize) -> (r: Vec<Payment>)
        ensures
            r@.len() == count,
            forall|i: int| 0 <= i < count ==> gen_payment_ok(#[trigger] r@[i]@),
    {
        let base = clamped_now_year();
        let mut out: Vec<Payment> = Vec::new();
        let mut k: usize = 0;
        while k < count
            invariant
                out@.len() == k <= count,
                1975 <= base <= 8000,
                forall|i: int| 0 <= i < k ==> gen_payment_ok(#[trigger] out@[i]@),
            decreases count - k,
        {
            let amount_cents = rand_range(1000, 1_000_001) as u32;
            let payment_due_date = rand_date(base - 3, base);
            let method = pick_payment_method();
            let p = Payment { amount_cents, payment_due_date, method };
            out.push(p);
            k += 1;
        }
        out
    }
}

/// What one generated project looks like: the end year never precedes the
/// start year.
pub open spec fn gen_project_ok(p: ProjectV) -> bool {
    &&& is_project_name(p.name)
    &&& is_project_desc(p.description)
    &&& is_status(p.status)
    &&& p.start_date.valid()
    &&& 2022 <= p.start_date.year <= 2024
    &&& p.start_date.day <= 28
    &&& p.end_date.valid()
    &&& p.start_date.year <= p.end_date.year <= 2025
    &&& p.end_date.day <= 28
}

impl Project {
    /// Generates exactly `count` projects.
    pub fn generate_batch(count: usize) -> (r: Vec<Project>)
        ensures
            r@.len() == count,
            forall|i: int| 0 <= i < count ==> gen_project_ok(#[trigger] r@[i]@),
    {
        let mut out: Vec<Project> = Vec::new();
        let mut k: usize = 0;
        while k < count
            invariant
                out@.len() == k <= count,
                forall|i: int| 0 <= i < k ==> gen_project_ok(#[trigger] out@[i]@),
            decreases count - k,
        {
            let name = pick_project_name();
            let description = pick_project_desc();
            let start_year = rand_range(2022, 2025) as i32;
            let end_year = rand_range(start_year as u64, 2026) as i32;
            let start_date = rand_date(start_year, start_year);
            let end_date = rand_date(end_year, end_year);
            let status = pick_status();
            let p = Project { name, description, start_date, end_date, status };
            out.push(p);
            k += 1;
        }
        out
    }
}

/// What one generated task looks like: the end year never precedes the
/// start year.
pub open spec fn gen_task_ok(t: TaskV) -> bool {
    &&& is_task_name(t.name)
    &&& is_task_desc(t.description)
    &&& is_status(t.status)
    &&& t.start_date.valid()
    &&& 2022 <= t.start_date.year <= 2024
    &&& t.start_date.day <= 28
    &&& t.end_date.valid()
    &&& t.start_date.year <= t.end_date.year <= 2025
    &&& t.end_date.day <= 28
}

impl Task {
    /// Generates exactly `count` tasks.
    pub fn generate_batch(count: usize) -> (r: Vec<Task>)
        ensures
            r@.len() == count,
            forall|i: int| 0 <= i < count ==> gen_task_ok(#[trigger] r@[i]@),
    {
        let mut out: Vec<Task> = Vec::new();
        let mut k: usize = 0;
        while k < count
            invariant
                out@.len() == k <= count,
                forall|i: int| 0 <= i < k ==> gen_task_ok(#[trigger] out@[i]@),
            decreases count - k,
        {
            let name = pick_task_name();
            let description = pick_task_desc();
            let start_year = rand_range(2022, 2025) as i32;
            let end_year = rand_range(start_year as u64, 2026) as i32;
            let start_date = rand_date(start_year, start_year);
            let end_date = rand_date(end_year, end_year);
            let status = pick_status();
            let t = Task { name, description, start_date, end_date, status };
            out.push(t);
            k += 1;
        }
        out
    }
}

impl Technology {
    /// Generates exactly `count` technology entries, each one of the
    /// seven canonical name-and-description pairs.
    pub fn generate_batch(count: usize) -> (r: Vec<Technology>)
        ensures
            r@.len() == count,
            forall|i: int|
                0 <= i < count ==> is_canonical_tech(
                    (#[trigger] r@[i]@).name,
                    r@[i]@.description,
                ),
    {
        let mut out: Vec<Technology> = Vec::new();
        let mut k: usize = 0;
        while k < count
            invariant
                out@.len() == k <= count,
                forall|i: int|
                    0 <= i < k ==> is_canonical_tech((#[trigger] out@[i]@).name, out@[i]@.description),
            decreases count - k,
        {
            let idx = rand_range(0, 7);
            let t = canonical_technology(idx);
            proof {
                assert(is_canonical_tech(t@.name, t@.description)) by {
                    assert(0 <= (idx as int) < 7 && t@.name == tech_name(idx as int)
                        && t@.description == tech_desc(idx as int));
                }
            }
            out.push(t);
            k += 1;
        }
        out
    }
}

/// What one generated staff member looks like.
pub open spec fn gen_staff_ok(s: StaffV, names: Seq<String>) -> bool {
    &&& from_list_or(s.name, names, "John"@)
    &&& is_department(s.department)
    &&& 5000 <= s.salary < 75000
    &&& exists|n: int| 6_000_000_000 <= n < 9_000_000_000 && s.phone == phone_str(n)
    &&& s.hire_date.valid()
    &&& 2017 <= s.hire_date.year <= 2021
    &&& s.hire_date.day <= 28
}

impl Staff {
    /// Generates exactly `count` staff members from the supplied name
    /// list, with contact numbers unique within the batch. Gives up with
    /// `ResourceExhausted` when the bounded retry for a fresh number
    /// fails.
    pub fn generate_batch(count: usize, names: &Vec<String>) -> (r: Result<Vec<Staff>, Error>)
        ensures
            match r {
                Ok(ss) => {
                    &&& ss@.len() == count
                    &&& forall|i: int| 0 <= i < count ==> gen_staff_ok(#[trigger] ss@[i]@, names@)
                    &&& forall|i: int, j: int|
                        0 <= i < j < count ==> ss@[i]@.phone != ss@[j]@.phone
                },
                Err(e) => e == Error::ResourceExhausted,
            },
            count <= 1 ==> r is Ok,
    {
        let mut out: Vec<Staff> = Vec::new();
        let mut used: Vec<u64> = Vec::new();
        let mut k: usize = 0;
        while k < count
            invariant
                out@.len() == k <= count,
                used@.len() == k,
                forall|i: int| 0 <= i < k ==> gen_staff_ok(#[trigger] out@[i]@, names@),
                forall|i: int|
                    0 <= i < k ==> (#[trigger] out@[i]@.phone) == phone_str(used@[i] as int)
                        && 6_000_000_000 <= used@[i] < 9_000_000_000,
                forall|p: int, q: int| 0 <= p < q < k ==> used@[p] != used@[q],
            decreases count - k,
        {
            let name = pick_word(names, "John");
            let department = pick_department();
            let salary = (5000 + rand_range(0, 70000)) as i32;
            let ghost used_before = used@;
            let n = match draw_unique(&mut used, 6_000_000_000, 9_000_000_000) {
                Ok(n) => n,
                Err(e) => {
                    return Err(e);
                },
            };
            let phone = format_phone(n);
            let hire_date = rand_date(2017, 2021);
            let s = Staff { name, department, salary, phone, hire_date };
            proof {
                assert(exists|m: int|
                    6_000_000_000 <= m < 9_000_000_000 && s@.phone == phone_str(m)) by {
                    assert(6_000_000_000 <= (n as int) < 9_000_000_000 && s@.phone == phone_str(
                        n as int,
                    ));
                }
                assert forall|p: int| 0 <= p < k implies used_before[p] != n by {
                    assert(used_before.contains(used_before[p]));
                }
            }
            out.push(s);
            k += 1;
        }
        proof {
            assert forall|i: int, j: int|
                0 <= i < j < count implies out@[i]@.phone != out@[j]@.phone by {
                if out@[i]@.phone == out@[j]@.phone {
                    lemma_phone_str_inj(used@[i] as int, used@[j] as int);
                }
            }
        }
        Ok(out)
    }
}

} // verus!
