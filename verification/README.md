# fog_node

A fog node that takes part in reverse auctions for FaaS functions: it bids
on the service level agreements (SLAs) that reach it, passes them on to its
neighbors, and hosts the functions it wins, keeping the memory and CPU of
its cluster nodes accounted for.

## Layout

- `src/` — the verified library (Verus). Each module states its behaviour
  in `requires`/`ensures` contracts over mathematical models:
  - `sla`, `records`, `function_tracking`: SLAs and the lifecycle of each
    function (proposed, paid, provisioned, live, finished);
  - `function_life`: paying books the release of a function at the end of
    its SLA, the release itself, and the wait for a function to come alive;
  - `resource_tracking`, `accounting`, `function`: what each cluster node
    offers and uses, and the function service that keeps usage covering
    the SLAs placed there;
  - `auction`, `placement`: choosing a cluster node, the per-second limit
    on bids, and how bids gathered from neighbors are combined;
  - `node_situation`, `node_life`, `routing`: where the node stands in the
    fog, registration of children, and packet routing;
  - `cron`, `faas`, `k8s`, `config`, `quantity`, `packet_loss`, `traffic`,
    `iot`, `errors`: smaller pieces (scheduled unprovisioning, deployment
    names, the cluster's reports and the offline cluster, configuration
    decoding, cluster quantities and their amounts,
    a sample ring, the traffic-statistics count, IoT job decisions);
  - `concurrent_map`: the `dashmap` maps the node keeps its state in, with
    the contracts of the calls made on them.
- `tests/` — tests of the library on concrete values.
- `app/` — the programs around the library: the HTTP API of the node, the
  calls to neighbors and parent, timers, floating-point pricing and latency
  estimates, the IoT emulation and the FaaS function handlers.
