//! What the mathematical values show of the values that they stand for.

use vstd::prelude::*;

use crate::config::BackendConfig;
use crate::config::Config;
use crate::proxy::BackendStatus;
use crate::state::AppState;
use crate::state::Backend;
use crate::state::StateView;
use crate::table::BackendHandle;

verus! {

/// A backend shows what it holds.
pub proof fn law_a_backend_shows_what_it_holds(backend: Backend)
    ensures
        backend@.id == backend.id,
        backend@.addr == backend.addr@,
        backend@.alive == backend.alive,
        backend@.active_connections == backend.active_connections,
{
}

/// An entry of the status page shows what it holds.
pub proof fn law_a_status_shows_what_it_holds(status: BackendStatus)
    ensures
        status@.id == status.id,
        status@.addr == status.addr@,
        status@.alive == status.alive,
        status@.active_connections == status.active_connections,
{
}

/// A handle shows the slot that it names, and what it carries along.
pub proof fn law_a_handle_shows_what_it_holds(handle: BackendHandle)
    ensures
        handle@.slot == handle.slot.number(),
        handle@.id == handle.id,
        handle@.addr == handle.addr@,
{
}

/// The handle of the backend in a slot names that slot, and carries the identifier and the
/// address of the backend there.
pub proof fn law_the_handle_of_a_slot_names_it(s: StateView, k: int)
    ensures
        crate::table::handle_of(s.known, k).slot == k,
        crate::table::handle_of(s.known, k).id == s.known[k].id,
        crate::table::handle_of(s.known, k).addr == s.known[k].addr,
{
}

/// A configuration shows what it holds, and its backends by their addresses.
pub proof fn law_a_configuration_shows_what_it_holds(config: Config)
    ensures
        config@.listen_addr == config.listen_addr@,
        config@.algorithm == config.algorithm,
        config@.health_check_interval_secs == config.health_check_interval_secs,
        config@.health_check_timeout_secs == config.health_check_timeout_secs,
        config@.health_check_path == config.health_check_path@,
        config@.backends.len() == config.backends@.len(),
        forall|i: int|
            0 <= i < config.backends@.len() ==> #[trigger] config@.backends[i]
                == config.backends@[i].addr@,
{
}

/// An entry of the configuration shows its address.
pub proof fn law_an_entry_shows_its_address(entry: BackendConfig)
    ensures
        entry@ == entry.addr@,
{
}

/// The routing state shows what it holds, and its backends as the table has them.
pub proof fn law_a_state_shows_what_it_holds(state: AppState)
    ensures
        state@.known == state.backends@.known,
        state@.rotation == state.backends@.rotation,
        state@.algorithm == state.algorithm,
        state@.health_check_path == state.health_check_path@,
        state@.health_check_timeout_secs == state.health_check_timeout_secs,
        state@.rr_counter == state.rr_counter,
        state@.next_backend_id == state.next_backend_id,
{
}

/// The backends of a table are those in the slots of its rotation, in order; a slot is one
/// of the table if and only if its number is below the number of known backends; and a table
/// is well-formed if and only if its rotation is made of such slots.
pub proof fn law_the_rotation_names_the_backends(s: StateView, k: int)
    ensures
        s.backends().len() == s.rotation.len(),
        forall|i: int|
            0 <= i < s.rotation.len() ==> #[trigger] s.backends()[i] == s.known[s.rotation[i]],
        s.holds(k) <==> 0 <= k < s.known.len(),
        s.wf() <==> forall|i: int|
            0 <= i < s.rotation.len() ==> 0 <= #[trigger] s.rotation[i] < s.known.len(),
{
}

} // verus!
