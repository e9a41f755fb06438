# operator_deploy

Running upstream Tekton images under an installed OpenShift Pipelines operator: the
operator's Deployment is given variables that name the images, its pods are restarted,
and the InstallerSets of the component are deleted so that the operator makes them anew.

`src/` decides and is verified with Verus. It takes replies of the cluster as plain
values and says what to ask for next and what a reply means.

| module | what it decides |
| --- | --- |
| `deploy`, `deploy_laws` | which step of the flow is next, and with what |
| `registry` | where pods pull the images from |
| `installation` | whether the operator is installed |
| `search` | where the operator's Deployment is |
| `env`, `env_laws` | the variables of the Deployment, and whether it has them |
| `restart`, `restart_laws`, `pods`, `labels` | the restart of the operator's pods |
| `rbac`, `json` | who may pull the images |
| `installer_sets` | which InstallerSets to delete |
| `error` | what can go wrong, and what the user is told |
| `model`, `text` | cluster objects and texts |

`app/` sends the requests, sleeps and prints.
