# payroll_compliance

Two ledger contracts for organisations that pay people on-chain:

* **compliance** — an append-only log of disbursements. Anyone may log a
  disbursement; the admin may claw one back, once, within 48 hours of it.
* **payroll** — recurring payments. The admin schedules entries, marks them as
  paid when they are due (which moves the next payout one interval after the
  payment) and cancels them.

Layout:

* `src/` — the verified core (Verus). Each contract's state is a plain value
  (`ComplianceContract`, `PayrollContract`) whose view is a mathematical model
  (`ComplianceState`, `PayrollState`). Every operation is specified by a
  transition function on the model, and the laws of each contract (the admin
  is set once, records are append-only, a clawback happens at most once and
  only inside its window, only the admin changes the schedule, a cancellation
  is final, a payment advances the schedule) are proof functions at the end of
  each module.
* `app/` — the Soroban contracts. Each entry point checks the caller's
  authorisation, loads the state and the ledger time from the host, calls the
  core, and stores the new state and publishes the returned event, or aborts
  with the core's message.
* `tests/` — tests of the core.
