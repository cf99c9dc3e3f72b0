# wattseal

The decision core of an energy monitor, written and proved in Verus.

Sensors report energy, usage and throughput. The library settles which entry of
an event carries which energy, sums events up, keeps a running total for each
component, and says what goes to an MQTT broker and to Home Assistant, and when.

| module       | what it holds                                                        |
|--------------|----------------------------------------------------------------------|
| `sensor`     | sensors, readings, events                                            |
| `event`      | from readings to an event: metered parts, missing energy, estimates  |
| `computed`   | from an event to its totals and processes                            |
| `process`    | the GPU usage of processes                                           |
| `hardware`   | the description of a node                                            |
| `startup`    | finding sensors, and the steps of initialization                     |
| `collector`  | the collection loop, running totals, publishing an event             |
| `energy`     | amounts of energy, running totals                                    |
| `envelope`   | the JSON envelope of a reading                                       |
| `publisher`  | publishing through an MQTT client                                    |
| `connection` | opening a connection, and what is said when it comes up              |
| `discovery`  | what Home Assistant is told                                          |
| `config`     | the settings of a node                                               |
| `topics`     | MQTT topics                                                          |
| `text`       | numbers and texts                                                    |

Functions whose name starts with `law_` state what holds of the library as a
whole. `app/` connects the library to `rumqttc`, the platform and a database.
