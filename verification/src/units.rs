use vstd::prelude::*;

verus! {

/// How the manager loaded a unit's definition.
#[derive(Debug, Clone, Copy, PartialEq, Eq, Structural)]
pub enum LoadState {
    Stub,
    Loaded,
    NotFound,
    BadSetting,
    Error,
    Merged,
    Masked,
}

/// The load state a manager string names, if any.
pub open spec fn load_state_of(s: Seq<char>) -> Option<LoadState> {
    if s == "stub"@ {
        Some(LoadState::Stub)
    } else if s == "loaded"@ {
        Some(LoadState::Loaded)
    } else if s == "not-found"@ {
        Some(LoadState::NotFound)
    } else if s == "bad-setting"@ {
        Some(LoadState::BadSetting)
    } else if s == "error"@ {
        Some(LoadState::Error)
    } else if s == "merged"@ {
        Some(LoadState::Merged)
    } else if s == "masked"@ {
        Some(LoadState::Masked)
    } else {
        None
    }
}

impl LoadState {
    /// Parse the manager's name for a load state; an unknown name is
    /// reported, not guessed at.
    pub fn parse(value: &str) -> (r: Option<LoadState>)
        ensures
            r == load_state_of(value@),
    {
        let v: String = value.to_owned();
        if v == "stub".to_owned() {
            Some(LoadState::Stub)
        } else if v == "loaded".to_owned() {
            Some(LoadState::Loaded)
        } else if v == "not-found".to_owned() {
            Some(LoadState::NotFound)
        } else if v == "bad-setting".to_owned() {
            Some(LoadState::BadSetting)
        } else if v == "error".to_owned() {
            Some(LoadState::Error)
        } else if v == "merged".to_owned() {
            Some(LoadState::Merged)
        } else if v == "masked".to_owned() {
            Some(LoadState::Masked)
        } else {
            None
        }
    }

    /// The manager's name for the state.
    pub fn as_str(&self) -> (r: &'static str)
        ensures
            load_state_of(r@) == Some(*self),
            r@ == match self {
                LoadState::Stub => "stub"@,
                LoadState::Loaded => "loaded"@,
                LoadState::NotFound => "not-found"@,
                LoadState::BadSetting => "bad-setting"@,
                LoadState::Error => "error"@,
                LoadState::Merged => "merged"@,
                LoadState::Masked => "masked"@,
            },
    {
        proof {
            reveal_strlit("stub");
            reveal_strlit("loaded");
            reveal_strlit("not-found");
            reveal_strlit("bad-setting");
            reveal_strlit("error");
            reveal_strlit("merged");
            reveal_strlit("masked");
            assert("stub"@.len() == 4);
            assert("loaded"@.len() == 6);
            assert("not-found"@.len() == 9);
            assert("bad-setting"@.len() == 11);
            assert("error"@.len() == 5);
            assert("merged"@.len() == 6);
            assert("masked"@.len() == 6);
            assert("loaded"@[0] == 'l');
            assert("merged"@[0] == 'm');
            assert("masked"@[0] == 'm');
            assert("masked"@[1] == 'a');
            assert("merged"@[1] == 'e');
        }
        match self {
            LoadState::Stub => "stub",
            LoadState::Loaded => "loaded",
            LoadState::NotFound => "not-found",
            LoadState::BadSetting => "bad-setting",
            LoadState::Error => "error",
            LoadState::Merged => "merged",
            LoadState::Masked => "masked",
        }
    }
}

/// Whether a unit is running, and how it is getting there or away.
#[derive(Debug, Clone, Copy, PartialEq, Eq, Structural)]
pub enum ActiveState {
    Active,
    Reloading,
    Inactive,
    Failed,
    Activating,
    Deactivating,
}

/// The active state a manager string names, if any.
pub open spec fn active_state_of(s: Seq<char>) -> Option<ActiveState> {
    if s == "active"@ {
        Some(ActiveState::Active)
    } else if s == "reloading"@ {
        Some(ActiveState::Reloading)
    } else if s == "inactive"@ {
        Some(ActiveState::Inactive)
    } else if s == "failed"@ {
        Some(ActiveState::Failed)
    } else if s == "activating"@ {
        Some(ActiveState::Activating)
    } else if s == "deactivating"@ {
        Some(ActiveState::Deactivating)
    } else {
        None
    }
}

impl ActiveState {
    /// Parse the manager's name for an active state; an unknown name is
    /// reported, not guessed at.
    pub fn parse(value: &str) -> (r: Option<ActiveState>)
        ensures
            r == active_state_of(value@),
    {
        let v: String = value.to_owned();
        if v == "active".to_owned() {
            Some(ActiveState::Active)
        } else if v == "reloading".to_owned() {
            Some(ActiveState::Reloading)
        } else if v == "inactive".to_owned() {
            Some(ActiveState::Inactive)
        } else if v == "failed".to_owned() {
            Some(ActiveState::Failed)
        } else if v == "activating".to_owned() {
            Some(ActiveState::Activating)
        } else if v == "deactivating".to_owned() {
            Some(ActiveState::Deactivating)
        } else {
            None
        }
    }

    /// The manager's name for the state.
    pub fn as_str(&self) -> (r: &'static str)
        ensures
            active_state_of(r@) == Some(*self),
            r@ == match self {
                ActiveState::Active => "active"@,
                ActiveState::Reloading => "reloading"@,
                ActiveState::Inactive => "inactive"@,
                ActiveState::Failed => "failed"@,
                ActiveState::Activating => "activating"@,
                ActiveState::Deactivating => "deactivating"@,
            },
    {
        proof {
            reveal_strlit("active");
            reveal_strlit("reloading");
            reveal_strlit("inactive");
            reveal_strlit("failed");
            reveal_strlit("activating");
            reveal_strlit("deactivating");
            assert("active"@.len() == 6);
            assert("reloading"@.len() == 9);
            assert("inactive"@.len() == 8);
            assert("failed"@.len() == 6);
            assert("activating"@.len() == 10);
            assert("deactivating"@.len() == 12);
            assert("active"@[0] == 'a');
            assert("failed"@[0] == 'f');
        }
        match self {
            ActiveState::Active => "active",
            ActiveState::Reloading => "reloading",
            ActiveState::Inactive => "inactive",
            ActiveState::Failed => "failed",
            ActiveState::Activating => "activating",
            ActiveState::Deactivating => "deactivating",
        }
    }

    /// Whether a start request makes sense: only units that are inactive or
    /// failed can be started.
    pub fn can_start(self) -> (r: bool)
        ensures
            r == (self is Inactive || self is Failed),
    {
        match self {
            ActiveState::Inactive => true,
            ActiveState::Failed => true,
            _ => false,
        }
    }
}

/// Whether a unit file is installed.
#[derive(Debug, Clone, Copy, PartialEq, Eq, Structural)]
pub enum UnitFileState {
    Enabled,
    Disabled,
    Static,
}

/// The unit-file state a manager string names, if any.
pub open spec fn unit_file_state_of(s: Seq<char>) -> Option<UnitFileState> {
    if s == "enabled"@ {
        Some(UnitFileState::Enabled)
    } else if s == "disabled"@ {
        Some(UnitFileState::Disabled)
    } else if s == "static"@ {
        Some(UnitFileState::Static)
    } else {
        None
    }
}

impl UnitFileState {
    /// Parse the manager's name for a unit-file state; an unknown name is
    /// reported, not guessed at.
    pub fn parse(value: &str) -> (r: Option<UnitFileState>)
        ensures
            r == unit_file_state_of(value@),
    {
        let v: String = value.to_owned();
        if v == "enabled".to_owned() {
            Some(UnitFileState::Enabled)
        } else if v == "disabled".to_owned() {
            Some(UnitFileState::Disabled)
        } else if v == "static".to_owned() {
            Some(UnitFileState::Static)
        } else {
            None
        }
    }

    /// The manager's name for the state.
    pub fn as_str(&self) -> (r: &'static str)
        ensures
            unit_file_state_of(r@) == Some(*self),
            r@ == match self {
                UnitFileState::Enabled => "enabled"@,
                UnitFileState::Disabled => "disabled"@,
                UnitFileState::Static => "static"@,
            },
    {
        proof {
            reveal_strlit("enabled");
            reveal_strlit("disabled");
            reveal_strlit("static");
            assert("enabled"@.len() == 7);
            assert("disabled"@.len() == 8);
            assert("static"@.len() == 6);
        }
        match self {
            UnitFileState::Enabled => "enabled",
            UnitFileState::Disabled => "disabled",
            UnitFileState::Static => "static",
        }
    }

    /// Only a disabled unit can be enabled.
    pub fn can_enable(self) -> (r: bool)
        ensures
            r == (self is Disabled),
    {
        match self {
            UnitFileState::Disabled => true,
            _ => false,
        }
    }

    /// Only an enabled unit can be disabled.
    pub fn can_disable(self) -> (r: bool)
        ensures
            r == (self is Enabled),
    {
        match self {
            UnitFileState::Enabled => true,
            _ => false,
        }
    }
}

/// The distribution's preset for a unit file, told apart from the live state
/// only by where it came from.
#[derive(Debug, Clone, Copy, PartialEq, Eq, Structural)]
pub struct UnitFilePreset(pub UnitFileState);

impl UnitFilePreset {
    /// Parse the manager's name for a preset.
    pub fn parse(value: &str) -> (r: Option<UnitFilePreset>)
        ensures
            r matches Some(p) ==> unit_file_state_of(value@) == Some(p.0),
            r is None <==> unit_file_state_of(value@) is None,
    {
        match UnitFileState::parse(value) {
            Some(s) => Some(UnitFilePreset(s)),
            None => None,
        }
    }

    /// The manager's name for the preset.
    pub fn as_str(&self) -> (r: &'static str)
        ensures
            unit_file_state_of(r@) == Some(self.0),
    {
        self.0.as_str()
    }
}

/// One row of the manager's unit listing; only the columns the viewer reads
/// are kept, and the bus object path is carried in its string form.
#[derive(Debug, Clone)]
pub struct UnitData {
    pub name: String,
    pub description: String,
    pub load_status: LoadState,
    pub active_status: ActiveState,
    pub object_path: String,
}

impl UnitData {
    /// Build a row from the raw listing strings. `None` when the manager
    /// names a load or active state this model does not know.
    pub fn from_listing(
        name: String,
        description: String,
        load_state: &str,
        active_state: &str,
        object_path: String,
    ) -> (r: Option<UnitData>)
        ensures
            r is Some <==> (load_state_of(load_state@) is Some && active_state_of(active_state@)
                is Some),
            r matches Some(u) ==> u.name == name && u.description == description && Some(
                u.load_status,
            ) == load_state_of(load_state@) && Some(u.active_status) == active_state_of(
                active_state@,
            ) && u.object_path == object_path,
    {
        let load_status = match LoadState::parse(load_state) {
            Some(s) => s,
            None => {
                return None;
            },
        };
        let active_status = match ActiveState::parse(active_state) {
            Some(s) => s,
            None => {
                return None;
            },
        };
        Some(UnitData { name, description, load_status, active_status, object_path })
    }
}

/// Whether `s` ends with `suffix`.
pub open spec fn has_suffix(s: Seq<char>, suffix: Seq<char>) -> bool {
    s.len() >= suffix.len() && s.subrange(s.len() - suffix.len(), s.len() as int) == suffix
}

/// Whether the string ends with the given suffix.
pub fn str_has_suffix(s: &str, suffix: &str) -> (r: bool)
    ensures
        r == has_suffix(s@, suffix@),
{
    let n = s.unicode_len();
    let m = suffix.unicode_len();
    if m > n {
        return false;
    }
    let mut j: usize = 0;
    while j < m
        invariant
            j <= m,
            m <= n,
            n == s@.len(),
            m == suffix@.len(),
            forall|t: int| 0 <= t < j ==> s@[n - m + t] == suffix@[t],
        decreases m - j,
    {
        let cs = s.get_char(n - m + j);
        let cf = suffix.get_char(j);
        if cs as u32 != cf as u32 {
            proof {
                assert(s@.subrange(n - m, n as int)[j as int] == s@[n - m + j]);
            }
            return false;
        }
        j = j + 1;
    }
    assert(s@.subrange(n - m, n as int) =~= suffix@);
    true
}

/// Lexicographic order on unit names by code point — the order that
/// comparing the names as strings gives.
pub open spec fn lex_le(a: Seq<char>, b: Seq<char>) -> bool
    decreases a.len(),
{
    if a.len() == 0 {
        true
    } else if b.len() == 0 {
        false
    } else if a[0] as u32 == b[0] as u32 {
        lex_le(a.drop_first(), b.drop_first())
    } else {
        (a[0] as u32) < (b[0] as u32)
    }
}

/// The name order admits every pair one way or the other.
pub proof fn lemma_lex_le_total(a: Seq<char>, b: Seq<char>)
    ensures
        lex_le(a, b) || lex_le(b, a),
    decreases a.len(),
{
    if a.len() == 0 || b.len() == 0 {
    } else if a[0] as u32 == b[0] as u32 {
        lemma_lex_le_total(a.drop_first(), b.drop_first());
    }
}

/// The name order is transitive.
pub proof fn lemma_lex_le_trans(a: Seq<char>, b: Seq<char>, c: Seq<char>)
    requires
        lex_le(a, b),
        lex_le(b, c),
    ensures
        lex_le(a, c),
    decreases a.len(),
{
    if a.len() == 0 || b.len() == 0 || c.len() == 0 {
    } else if a[0] as u32 == b[0] as u32 && b[0] as u32 == c[0] as u32 {
        lemma_lex_le_trans(a.drop_first(), b.drop_first(), c.drop_first());
    }
}

/// Compare two strings in the name order.
pub fn str_lex_le(a: &str, b: &str) -> (r: bool)
    ensures
        r == lex_le(a@, b@),
{
    let n = a.unicode_len();
    let m = b.unicode_len();
    let mut i: usize = 0;
    proof {
        assert(a@.skip(0) =~= a@);
        assert(b@.skip(0) =~= b@);
    }
    while i < n && i < m
        invariant
            i <= n,
            i <= m,
            n == a@.len(),
            m == b@.len(),
            lex_le(a@, b@) == lex_le(a@.skip(i as int), b@.skip(i as int)),
        decreases n - i,
    {
        let ca = a.get_char(i);
        let cb = b.get_char(i);
        proof {
            assert(a@.skip(i as int)[0] == a@[i as int]);
            assert(b@.skip(i as int)[0] == b@[i as int]);
        }
        if ca as u32 != cb as u32 {
            return (ca as u32) < (cb as u32);
        }
        proof {
            assert(a@.skip(i as int).drop_first() =~= a@.skip(i as int + 1));
            assert(b@.skip(i as int).drop_first() =~= b@.skip(i as int + 1));
        }
        i = i + 1;
    }
    proof {
        assert(a@.skip(i as int).len() == n - i);
        assert(b@.skip(i as int).len() == m - i);
    }
    i == n
}

/// Rows in non-descending name order.
pub open spec fn sorted_by_name(s: Seq<UnitData>) -> bool {
    forall|i: int, j: int|
        0 <= i < j < s.len() ==> lex_le(#[trigger] s[i].name@, #[trigger] s[j].name@)
}

/// The rows whose unit is a `.service`, in listing order.
pub open spec fn service_rows(s: Seq<UnitData>) -> Seq<UnitData>
    decreases s.len(),
{
    if s.len() == 0 {
        Seq::empty()
    } else if has_suffix(s.last().name@, ".service"@) {
        service_rows(s.drop_last()).push(s.last())
    } else {
        service_rows(s.drop_last())
    }
}

/// The position before the first row whose name orders strictly after `u`'s.
fn find_insert_pos(rows: &Vec<UnitData>, u: &UnitData) -> (k: usize)
    ensures
        k <= rows@.len(),
        forall|t: int| k <= t < rows@.len() ==> !lex_le(#[trigger] rows@[t].name@, u.name@),
        k > 0 ==> lex_le(rows@[k - 1].name@, u.name@),
{
    let mut k: usize = rows.len();
    while k > 0
        invariant
            k <= rows@.len(),
            forall|t: int| k <= t < rows@.len() ==> !lex_le(#[trigger] rows@[t].name@, u.name@),
        decreases k,
    {
        if str_lex_le(rows[k - 1].name.as_str(), u.name.as_str()) {
            return k;
        }
        k = k - 1;
    }
    0
}

/// Insert one row into a name-sorted list, keeping it sorted.
fn insert_by_name(rows: &mut Vec<UnitData>, u: UnitData)
    requires
        sorted_by_name(old(rows)@),
    ensures
        sorted_by_name(final(rows)@),
        final(rows)@.to_multiset() == old(rows)@.to_multiset().insert(u),
{
    let k = find_insert_pos(rows, &u);
    proof {
        let w = rows@.insert(k as int, u);
        assert(forall|t: int| 0 <= t < k ==> w[t] == rows@[t]);
        assert(w[k as int] == u);
        assert(forall|t: int| k < t < w.len() ==> w[t] == rows@[t - 1]);
        assert forall|i: int, j: int| 0 <= i < j < w.len() implies lex_le(
            w[i].name@,
            w[j].name@,
        ) by {
            if j < k {
            } else if i < k && j == k {
                if i < k - 1 {
                    lemma_lex_le_trans(rows@[i].name@, rows@[k - 1].name@, u.name@);
                }
            } else if i == k && j > k {
                lemma_lex_le_total(u.name@, rows@[j - 1].name@);
            }
        }
        vstd::seq_lib::to_multiset_insert(rows@, k as int, u);
    }
    rows.insert(k, u);
}

/// Keep only the `.service` rows of a listing and order them by unit name —
/// the shape in which the services table shows them.
pub fn sorted_service_units(units: &Vec<UnitData>) -> (r: Vec<UnitData>)
    ensures
        sorted_by_name(r@),
        r@.to_multiset() == service_rows(units@).to_multiset(),
{
    let mut r: Vec<UnitData> = Vec::new();
    let n = units.len();
    let mut i: usize = 0;
    while i < n
        invariant
            i <= n,
            n == units@.len(),
            sorted_by_name(r@),
            r@.to_multiset() == service_rows(units@.take(i as int)).to_multiset(),
        decreases n - i,
    {
        proof {
            assert(units@.take(i as int + 1).drop_last() =~= units@.take(i as int));
            assert(units@.take(i as int + 1).last() == units@[i as int]);
        }
        if str_has_suffix(units[i].name.as_str(), ".service") {
            let row = UnitData {
                name: units[i].name.clone(),
                description: units[i].description.clone(),
                load_status: units[i].load_status,
                active_status: units[i].active_status,
                object_path: units[i].object_path.clone(),
            };
            assert(row == units@[i as int]);
            proof {
                vstd::seq_lib::to_multiset_build(
                    service_rows(units@.take(i as int)),
                    units@[i as int],
                );
            }
            insert_by_name(&mut r, row);
        }
        i = i + 1;
    }
    assert(units@.take(n as int) =~= units@);
    r
}

} // verus!
