# sakura_tui

The verified core of a terminal client for Sakura Cloud: the service catalogue
and its picker, list filters and selections, the connection map of a zone, the
records of the AppRun, billing, CloudHSM and IaaS-resource APIs read from JSON,
the checks of the input forms, and the messages shown for API errors. Every
function in `src/` carries a contract that Verus proves, except three small
trusted wrappers whose bodies call outside code and are not proved:
`api_error::status_text` (the reason phrase of an HTTP status code, from
`reqwest::StatusCode`),
`text::string_from_chars` (collecting characters into a `String`) and
`text::to_lowercase` (Unicode lower-casing). Their contracts state what the
documentation of the called functions promises.

Layout:

- `src/text.rs`, `src/json.rs`, `src/order.rs`: text, JSON values and stable
  ordering, with their specifications.
- `src/service.rs`, `src/service_names.rs`, `src/tabs.rs`, `src/state.rs`: the
  catalogue of services, tabs, filters, selections and pasted text.
- `src/network_map.rs`: the rows of the connection map.
- `src/billing.rs`, `src/cloudhsm.rs`, `src/cloud_resources.rs`,
  `src/apprun.rs`, `src/apprun_dedicated.rs`, `src/api_error.rs`: the API
  records, paging decisions and error messages.
- `src/forms.rs`, `src/account_forms.rs`: form checks, label conditions, and
  what the user and IAM forms send.
- `src/session.rs`: the credential generation of requests, so that results of
  earlier credentials are dropped; stored results and status lines.
- `src/keys.rs`, `src/dialogs.rs`, `src/overlay.rs`, `src/view.rs`: the keys
  shared by every screen and those of the registry screen, the dialogs (help,
  messages, confirmations, the service, zone, login and profile pickers), and
  which list the keys act on.
- `src/messages.rs`: what the results of requests do to the AppRun, dedicated
  AppRun, billing and CloudHSM screens, the zones and the service counts.
- `src/service_counts.rs`: the counts shown beside the services and per zone, and the
  availability read from them.
- `app/`: HTTP clients, JSON text, clipboard, error chains and the terminal loop
  around the library.
- `tests/`: tests of the library on concrete values.
